//! The agent strip: the main session, the subagents of the current batch and
//! an entry for the earlier ones; walking a highlight along it, what choosing
//! an entry shows, and the rows of the agent history picker.
use vstd::prelude::*;
use crate::picker::{Picker, PickerItem, PickerKind, SubagentView};
use crate::text::str_eq;

verus! {

/// The strip entry standing for the subagents of earlier batches.
pub const AGENT_HISTORY_ID: &'static str = "__martty_internal__:agent-history";

pub open spec fn history_id() -> Seq<char> {
    AGENT_HISTORY_ID@
}

/// Whether subagent `id` belongs to the current batch: every subagent does
/// while no batch is recorded.
pub open spec fn in_batch(batch: Seq<String>, id: Seq<char>) -> bool {
    batch.len() == 0 || exists|i: int| 0 <= i < batch.len() && #[trigger] batch[i]@ == id
}

/// Whether subagent `id` belongs to the current batch.
pub fn in_current_batch(batch: &Vec<String>, id: &str) -> (r: bool)
    ensures
        r == in_batch(batch@, id@),
{
    if batch.len() == 0 {
        return true;
    }
    let mut i: usize = 0;
    while i < batch.len()
        invariant
            i <= batch.len(),
            forall|j: int| 0 <= j < i ==> #[trigger] batch@[j]@ != id@,
        decreases batch.len() - i,
    {
        if str_eq(batch[i].as_str(), id) {
            assert(batch@[i as int]@ == id@);
            return true;
        }
        i = i + 1;
    }
    false
}

/// The ids of the current batch's subagents, in view order.
pub open spec fn batch_ids<T>(views: Seq<SubagentView<T>>, batch: Seq<String>) -> Seq<Seq<char>>
    decreases views.len(),
{
    if views.len() == 0 {
        Seq::empty()
    } else {
        let rest = batch_ids(views.drop_last(), batch);
        if in_batch(batch, views.last().id@) {
            rest.push(views.last().id@)
        } else {
            rest
        }
    }
}

/// Whether some subagent belongs to an earlier batch.
pub open spec fn has_history<T>(views: Seq<SubagentView<T>>, batch: Seq<String>) -> bool {
    exists|i: int| 0 <= i < views.len() && !in_batch(batch, (#[trigger] views[i]).id@)
}

/// The strip, left to right: the main session, the current batch, and the
/// history entry when earlier subagents exist.
pub open spec fn navigation_ids<T>(session: Seq<char>, views: Seq<SubagentView<T>>, batch: Seq<String>) -> Seq<Seq<char>> {
    seq![session] + batch_ids(views, batch) + if has_history(views, batch) {
        seq![history_id()]
    } else {
        Seq::empty()
    }
}

pub open spec fn ids_view(v: Seq<String>) -> Seq<Seq<char>> {
    v.map_values(|s: String| s@)
}

/// The ids along the agent strip.
pub fn agent_navigation_ids<T>(session: &str, views: &Vec<SubagentView<T>>, batch: &Vec<String>) -> (r: Vec<String>)
    ensures
        ids_view(r@) == navigation_ids(session@, views@, batch@),
{
    let mut ids: Vec<String> = Vec::new();
    ids.push(session.to_owned());
    let mut history = false;
    let mut i: usize = 0;
    assert(ids_view(ids@) =~= seq![session@] + batch_ids(views@.take(0), batch@));
    while i < views.len()
        invariant
            i <= views.len(),
            ids_view(ids@) == seq![session@] + batch_ids(views@.take(i as int), batch@),
            history == has_history(views@.take(i as int), batch@),
        decreases views.len() - i,
    {
        let ghost before = ids_view(ids@);
        let ghost pre = views@.take(i as int);
        let ghost next = views@.take(i + 1);
        assert(next.drop_last() =~= pre);
        assert(next.last() == views@[i as int]);
        if in_current_batch(batch, views[i].id.as_str()) {
            ids.push(views[i].id.clone());
            assert(ids_view(ids@) =~= before.push(views@[i as int].id@));
        } else {
            history = true;
        }
        proof {
            if has_history(next, batch@) {
                let k = choose|k: int| 0 <= k < next.len() && !in_batch(batch@, (#[trigger] next[k]).id@);
                if k < i {
                    assert(pre[k] == next[k]);
                }
            }
            if has_history(pre, batch@) {
                let k = choose|k: int| 0 <= k < pre.len() && !in_batch(batch@, (#[trigger] pre[k]).id@);
                assert(next[k] == pre[k]);
            }
            if !in_batch(batch@, views@[i as int].id@) {
                assert(next[i as int] == views@[i as int]);
            }
        }
        i = i + 1;
    }
    assert(views@.take(views.len() as int) =~= views@);
    if history {
        let ghost before = ids_view(ids@);
        ids.push(AGENT_HISTORY_ID.to_owned());
        assert(ids_view(ids@) =~= before + seq![history_id()]);
    } else {
        assert(ids_view(ids@) =~= ids_view(ids@) + Seq::<Seq<char>>::empty());
    }
    ids
}

/// The first position of `id` in `ids`.
pub open spec fn index_in(ids: Seq<Seq<char>>, id: Seq<char>) -> Option<int>
    decreases ids.len(),
{
    if ids.len() == 0 {
        None
    } else if ids[0] == id {
        Some(0)
    } else {
        match index_in(ids.drop_first(), id) {
            Some(i) => Some(i + 1),
            None => None,
        }
    }
}

/// Where the highlight lands after moving `delta` entries from `current`
/// (from the first entry when `current` is not on the strip), wrapping at
/// both ends; none on a strip of fewer than two entries.
pub open spec fn moved_selection(ids: Seq<Seq<char>>, current: Seq<char>, delta: int) -> Option<Seq<char>> {
    if ids.len() < 2 {
        None
    } else {
        let index = match index_in(ids, current) {
            Some(i) => i,
            None => 0,
        };
        Some(ids[(index + delta) % (ids.len() as int)])
    }
}

pub proof fn lemma_index_in(ids: Seq<Seq<char>>, id: Seq<char>, k: int)
    requires
        0 <= k <= ids.len(),
        forall|j: int| 0 <= j < k ==> ids[j] != id,
    ensures
        k < ids.len() && ids[k] == id ==> index_in(ids, id) == Some(k),
        k == ids.len() ==> index_in(ids, id) is None,
    decreases k,
{
    if k > 0 {
        assert forall|j: int| 0 <= j < k - 1 implies ids.drop_first()[j] != id by {
            assert(ids.drop_first()[j] == ids[j + 1]);
        }
        if k < ids.len() {
            assert(ids.drop_first()[k - 1] == ids[k]);
        }
        lemma_index_in(ids.drop_first(), id, k - 1);
    }
}

pub proof fn lemma_index_in_range(ids: Seq<Seq<char>>, id: Seq<char>)
    ensures
        index_in(ids, id) matches Some(i) ==> 0 <= i < ids.len() && ids[i] == id,
        (index_in(ids, id) is Some) == ids.contains(id),
    decreases ids.len(),
{
    if ids.len() > 0 && ids[0] != id {
        lemma_index_in_range(ids.drop_first(), id);
        if ids.contains(id) {
            let k = choose|k: int| 0 <= k < ids.len() && ids[k] == id;
            assert(ids.drop_first()[k - 1] == id);
        }
        if ids.drop_first().contains(id) {
            let k = choose|k: int| 0 <= k < ids.drop_first().len() && ids.drop_first()[k] == id;
            assert(ids[k + 1] == id);
        }
    }
    if ids.len() > 0 && ids[0] == id {
        assert(ids.contains(id));
    }
}

/// `(index + delta).rem_euclid(n)` from unsigned pieces.
fn wrap_index(index: usize, delta: i64, n: usize) -> (r: usize)
    requires
        index < n,
    ensures
        r as int == (index + delta) % (n as int),
        r < n,
{
    if delta >= 0 {
        let s: u128 = index as u128 + delta as u128;
        let m = (s % (n as u128)) as usize;
        m
    } else {
        let back: u128 = (0i128 - delta as i128) as u128;
        let k: u128 = back % (n as u128);
        let m = ((index as u128 + n as u128 - k) % (n as u128)) as usize;
        proof {
            let nn = n as int;
            let b = back as int;
            let q = b / nn;
            vstd::arithmetic::div_mod::lemma_fundamental_div_mod(b, nn);
            assert(b == nn * q + k);
            assert(index + delta == (index + nn - k) + nn * (-(q + 1))) by (nonlinear_arith)
                requires
                    b == nn * q + k,
                    b == -delta,
            ;
            vstd::arithmetic::div_mod::lemma_mod_multiples_vanish(-(q + 1), index + nn - k, nn);
            assert((nn * (-(q + 1)) + (index + nn - k)) % nn == (index + nn - k) % nn);
        }
        m
    }
}

/// The strip entry the highlight moves to.
pub fn move_agent_selection(ids: &Vec<String>, current: &str, delta: i64) -> (r: Option<String>)
    ensures
        match r {
            Some(s) => moved_selection(ids_view(ids@), current@, delta as int) == Some(s@),
            None => moved_selection(ids_view(ids@), current@, delta as int) is None,
        },
{
    let ghost v = ids_view(ids@);
    if ids.len() < 2 {
        return None;
    }
    let mut i: usize = 0;
    let mut found = false;
    while i < ids.len() && !found
        invariant
            i <= ids.len(),
            v == ids_view(ids@),
            found ==> i < ids.len() && v[i as int] == current@,
            forall|j: int| 0 <= j < i ==> v[j] != current@,
        decreases ids.len() - i + (if found { 0int } else { 1int }),
    {
        if str_eq(ids[i].as_str(), current) {
            found = true;
        } else {
            i = i + 1;
        }
    }
    proof {
        lemma_index_in(v, current@, i as int);
    }
    let index: usize = if found {
        i
    } else {
        0
    };
    let next = wrap_index(index, delta, ids.len());
    Some(ids[next].clone())
}

/// The entry the strip shows as active: the main session, the subagent
/// being viewed, or the history entry for an earlier subagent.
pub open spec fn active_entry(session: Seq<char>, active: Option<Seq<char>>, batch: Seq<String>) -> Seq<char> {
    match active {
        Some(id) => if in_batch(batch, id) { id } else { history_id() },
        None => session,
    }
}

/// The entry the strip shows as active.
pub fn active_agent_id(session: &str, active: Option<&str>, batch: &Vec<String>) -> (r: String)
    ensures
        r@ == active_entry(session@, match active {
            Some(a) => Some(a@),
            None => None,
        }, batch@),
{
    match active {
        Some(id) => if in_current_batch(batch, id) {
            id.to_owned()
        } else {
            AGENT_HISTORY_ID.to_owned()
        },
        None => session.to_owned(),
    }
}

/// What choosing a strip entry shows.
#[derive(Debug, PartialEq, Eq)]
pub enum AgentTarget {
    /// Open the picker of earlier subagents.
    OpenHistory,
    /// Show the main session.
    Main,
    /// Show this subagent's transcript.
    Subagent(String),
    /// The entry names nothing known: nothing changes.
    Unknown,
}

/// Whether some view shows subagent `id`.
pub open spec fn has_view<T>(views: Seq<SubagentView<T>>, id: Seq<char>) -> bool {
    exists|i: int| 0 <= i < views.len() && #[trigger] views[i].id@ == id
}

/// What choosing entry `id` shows.
pub fn agent_target<T>(session: &str, views: &Vec<SubagentView<T>>, id: &str) -> (r: AgentTarget)
    ensures
        id@ == history_id() ==> r == AgentTarget::OpenHistory,
        id@ != history_id() && id@ == session@ ==> r == AgentTarget::Main,
        id@ != history_id() && id@ != session@ ==> if has_view(views@, id@) {
            r matches AgentTarget::Subagent(s) && s@ == id@
        } else {
            r == AgentTarget::Unknown
        },
{
    if str_eq(id, AGENT_HISTORY_ID) {
        return AgentTarget::OpenHistory;
    }
    if str_eq(id, session) {
        return AgentTarget::Main;
    }
    let mut i: usize = 0;
    while i < views.len()
        invariant
            i <= views.len(),
            id@ != history_id(),
            id@ != session@,
            forall|j: int| 0 <= j < i ==> #[trigger] views@[j].id@ != id@,
        decreases views.len() - i,
    {
        if str_eq(views[i].id.as_str(), id) {
            assert(views@[i as int].id@ == id@);
            return AgentTarget::Subagent(id.to_owned());
        }
        i = i + 1;
    }
    AgentTarget::Unknown
}

/// A subagent's state as the history picker and the strip name it.
pub open spec fn status_word<T>(v: SubagentView<T>, done: Seq<char>) -> Seq<char> {
    if v.running {
        "running"@
    } else if v.failed {
        "failed"@
    } else {
        done
    }
}

/// A history picker row: `(id, label, meta)`.
pub open spec fn history_row<T>(v: SubagentView<T>) -> (Seq<char>, Seq<char>, Seq<char>) {
    (v.id@, v.label@, status_word(v, "completed"@))
}

/// The rows of the agent history picker: the subagents of earlier batches,
/// newest first.
pub open spec fn history_rows<T>(views: Seq<SubagentView<T>>, batch: Seq<String>) -> Seq<(Seq<char>, Seq<char>, Seq<char>)>
    decreases views.len(),
{
    if views.len() == 0 {
        Seq::empty()
    } else {
        let rest = history_rows(views.drop_last(), batch);
        if in_batch(batch, views.last().id@) {
            rest
        } else {
            seq![history_row(views.last())] + rest
        }
    }
}

pub open spec fn item_row(i: PickerItem) -> (Seq<char>, Seq<char>, Seq<char>) {
    (i.id@, i.label@, i.meta@)
}

fn status_text<T>(v: &SubagentView<T>, done: &'static str) -> (r: &'static str)
    ensures
        r@ == status_word(*v, done@),
{
    if v.running {
        "running"
    } else if v.failed {
        "failed"
    } else {
        done
    }
}

/// The agent history picker's rows (none when every subagent is current).
pub fn agent_history_items<T>(views: &Vec<SubagentView<T>>, batch: &Vec<String>) -> (r: Vec<PickerItem>)
    ensures
        r@.map_values(|i: PickerItem| item_row(i)) == history_rows(views@, batch@),
        forall|k: int| 0 <= k < r.len() ==> (#[trigger] r@[k]).provider is None,
{
    let mut items: Vec<PickerItem> = Vec::new();
    let mut i: usize = views.len();
    assert(views@.take(views.len() as int) =~= views@);
    while i > 0
        invariant
            i <= views.len(),
            items@.map_values(|it: PickerItem| item_row(it)) + history_rows(views@.take(i as int), batch@)
                == history_rows(views@, batch@),
            forall|k: int| 0 <= k < items.len() ==> (#[trigger] items@[k]).provider is None,
        decreases i,
    {
        let ghost before = items@.map_values(|it: PickerItem| item_row(it));
        let ghost pre = views@.take(i - 1);
        let ghost cur = views@.take(i as int);
        assert(cur.drop_last() =~= pre);
        assert(cur.last() == views@[i - 1]);
        let v = &views[i - 1];
        if !in_current_batch(batch, v.id.as_str()) {
            let meta = status_text(v, "completed");
            items.push(PickerItem { id: v.id.clone(), label: v.label.clone(), meta: meta.to_owned(), provider: None });
            assert(items@.map_values(|it: PickerItem| item_row(it)) =~= before.push(history_row(*v)));
            assert(before.push(history_row(*v)) + history_rows(pre, batch@) =~= before + (seq![history_row(*v)]
                + history_rows(pre, batch@)));
        }
        i = i - 1;
    }
    assert(views@.take(0) =~= Seq::<SubagentView<T>>::empty());
    assert(items@.map_values(|it: PickerItem| item_row(it)) + Seq::empty() =~= items@.map_values(
        |it: PickerItem| item_row(it),
    ));
    items
}

/// The agent history picker, when some subagent belongs to an earlier batch.
pub fn agent_history_picker<T>(views: &Vec<SubagentView<T>>, batch: &Vec<String>) -> (r: Option<Picker>)
    ensures
        match r {
            Some(p) => {
                &&& p.kind == PickerKind::AgentHistory
                &&& p.title@ == "Agent history"@
                &&& p.sel == 0
                &&& p.offset == 0
                &&& p.items@.map_values(|i: PickerItem| item_row(i)) == history_rows(views@, batch@)
                &&& history_rows(views@, batch@).len() > 0
            },
            None => history_rows(views@, batch@).len() == 0,
        },
{
    let items = agent_history_items(views, batch);
    if items.len() == 0 {
        return None;
    }
    Some(Picker { kind: PickerKind::AgentHistory, title: "Agent history".to_owned(), sel: 0, items, offset: 0 })
}

/// Where the highlight starts when the strip is entered: on the active
/// entry; not at all without subagents.
pub fn begin_agent_navigation<T>(session: &str, active: Option<&str>, views: &Vec<SubagentView<T>>, batch: &Vec<String>) -> (r: Option<String>)
    ensures
        views.len() == 0 ==> r is None,
        views.len() > 0 ==> (r matches Some(s) && s@ == active_entry(session@, match active {
            Some(a) => Some(a@),
            None => None,
        }, batch@)),
{
    if views.len() == 0 {
        return None;
    }
    Some(active_agent_id(session, active, batch))
}

/// One entry of the agents snapshot the shell reports to the host.
pub struct AgentRow {
    pub id: String,
    pub label: String,
    pub kind: String,
    pub status: String,
    /// The subagent belongs to the current batch.
    pub current: bool,
}

/// What the host is told about the agent strip.
pub struct AgentsSnapshot {
    pub active_id: String,
    pub selected_id: Option<String>,
    pub items: Vec<AgentRow>,
}

pub open spec fn row_fields(r: AgentRow) -> (Seq<char>, Seq<char>, Seq<char>, Seq<char>, bool) {
    (r.id@, r.label@, r.kind@, r.status@, r.current)
}

/// The number of subagents of earlier batches.
pub open spec fn history_count<T>(views: Seq<SubagentView<T>>, batch: Seq<String>) -> nat
    decreases views.len(),
{
    if views.len() == 0 {
        0
    } else {
        history_count(views.drop_last(), batch) + if in_batch(batch, views.last().id@) {
            0nat
        } else {
            1nat
        }
    }
}

/// A subagent's snapshot row.
pub open spec fn strip_row<T>(v: SubagentView<T>, batch: Seq<String>) -> (Seq<char>, Seq<char>, Seq<char>, Seq<char>, bool) {
    (v.id@, v.label@, "subagent"@, status_word(v, "finished"@), in_batch(batch, v.id@))
}

/// The snapshot rows: the main session (running while a turn is under
/// way), each subagent, and `History (n)` when earlier subagents exist.
pub open spec fn snapshot_rows<T>(
    session: Seq<char>,
    main_label: Seq<char>,
    root_running: bool,
    views: Seq<SubagentView<T>>,
    batch: Seq<String>,
) -> Seq<(Seq<char>, Seq<char>, Seq<char>, Seq<char>, bool)> {
    let n = history_count(views, batch);
    seq![(session, main_label, "main"@, if root_running { "running"@ } else { "idle"@ }, false)]
        + views.map_values(
        |v: SubagentView<T>| (v.id@, v.label@, "subagent"@, status_word(v, "finished"@), in_batch(batch, v.id@)),
    ) + if n > 0 {
        seq![(history_id(), "History ("@ + crate::numfmt::decimal(n) + ")"@, "history"@, "idle"@, false)]
    } else {
        Seq::empty()
    }
}

proof fn lemma_history_count_bound<T>(views: Seq<SubagentView<T>>, batch: Seq<String>)
    ensures
        history_count(views, batch) <= views.len(),
    decreases views.len(),
{
    if views.len() > 0 {
        lemma_history_count_bound(views.drop_last(), batch);
    }
}

/// The agents snapshot: the active entry, the highlighted one while it
/// names a row, and the rows.
pub fn agents_snapshot<T>(
    session: &str,
    main_label: &str,
    root_running: bool,
    active: Option<&str>,
    selection: Option<&str>,
    views: &Vec<SubagentView<T>>,
    batch: &Vec<String>,
) -> (r: AgentsSnapshot)
    requires
        views.len() < u64::MAX,
    ensures
        r.active_id@ == active_entry(session@, match active {
            Some(a) => Some(a@),
            None => None,
        }, batch@),
        r.items@.map_values(|x: AgentRow| row_fields(x)) == snapshot_rows(session@, main_label@, root_running, views@, batch@),
        match selection {
            Some(s) => {
                let rows = snapshot_rows(session@, main_label@, root_running, views@, batch@);
                if exists|k: int| 0 <= k < rows.len() && #[trigger] rows[k].0 == s@ {
                    r.selected_id matches Some(t) && t@ == s@
                } else {
                    r.selected_id is None
                }
            },
            None => r.selected_id is None,
        },
{
    let active_id = active_agent_id(session, active, batch);
    let mut items: Vec<AgentRow> = Vec::new();
    items.push(AgentRow {
        id: session.to_owned(),
        label: main_label.to_owned(),
        kind: "main".to_owned(),
        status: if root_running { "running".to_owned() } else { "idle".to_owned() },
        current: false,
    });
    let ghost head = seq![(session@, main_label@, "main"@, if root_running { "running"@ } else { "idle"@ }, false)];
    assert(items@.map_values(|x: AgentRow| row_fields(x)) =~= head + views@.take(0).map_values(|v: SubagentView<T>| strip_row(v, batch@)));
    let mut count: u64 = 0;
    let mut i: usize = 0;
    while i < views.len()
        invariant
            i <= views.len() < u64::MAX,
            items@.map_values(|x: AgentRow| row_fields(x)) == head + views@.take(i as int).map_values(|v: SubagentView<T>| strip_row(v, batch@)),
            count == history_count(views@.take(i as int), batch@),
            count <= i,
        decreases views.len() - i,
    {
        let ghost before = items@.map_values(|x: AgentRow| row_fields(x));
        let v = &views[i];
        let current = in_current_batch(batch, v.id.as_str());
        let status = status_text(v, "finished");
        items.push(AgentRow {
            id: v.id.clone(),
            label: v.label.clone(),
            kind: "subagent".to_owned(),
            status: status.to_owned(),
            current,
        });
        if !current {
            count = count + 1;
        }
        proof {
            assert(views@.take(i + 1).drop_last() =~= views@.take(i as int));
            assert(views@.take(i + 1).last() == views@[i as int]);
            assert(views@.take(i + 1).map_values(|v: SubagentView<T>| strip_row(v, batch@)) =~= views@.take(i as int).map_values(|v: SubagentView<T>| strip_row(v, batch@)).push(strip_row(views@[i as int], batch@)));
            assert(items@.map_values(|x: AgentRow| row_fields(x)) =~= before.push(strip_row(views@[i as int], batch@)));
        }
        i = i + 1;
    }
    assert(views@.take(views.len() as int) =~= views@);
    if count > 0 {
        let ghost before = items@.map_values(|x: AgentRow| row_fields(x));
        let number = crate::numfmt::format_decimal(count);
        let a = crate::text::concat_str("History (", number.as_str());
        let label = crate::text::concat_str(a.as_str(), ")");
        items.push(AgentRow {
            id: AGENT_HISTORY_ID.to_owned(),
            label,
            kind: "history".to_owned(),
            status: "idle".to_owned(),
            current: false,
        });
        assert(items@.map_values(|x: AgentRow| row_fields(x)) =~= before.push(
            (history_id(), "History ("@ + crate::numfmt::decimal(count as nat) + ")"@, "history"@, "idle"@, false),
        ));
    } else {
        assert(items@.map_values(|x: AgentRow| row_fields(x)) =~= items@.map_values(|x: AgentRow| row_fields(x))
            + Seq::empty());
    }
    let ghost rows = items@.map_values(|x: AgentRow| row_fields(x));
    assert(rows == snapshot_rows(session@, main_label@, root_running, views@, batch@));
    let selected_id: Option<String> = match selection {
        Some(s) => {
            let mut k: usize = 0;
            let mut found = false;
            while k < items.len() && !found
                invariant
                    k <= items.len(),
                    rows == items@.map_values(|x: AgentRow| row_fields(x)),
                    found ==> k < items.len() && rows[k as int].0 == s@,
                    forall|j: int| 0 <= j < k ==> #[trigger] rows[j].0 != s@,
                decreases items.len() - k + (if found { 0int } else { 1int }),
            {
                if str_eq(items[k].id.as_str(), s) {
                    found = true;
                } else {
                    k = k + 1;
                }
            }
            proof {
                if !found {
                    assert(!(exists|j: int| 0 <= j < rows.len() && #[trigger] rows[j].0 == s@));
                }
            }
            if found {
                Some(s.to_owned())
            } else {
                None
            }
        },
        None => None,
    };
    AgentsSnapshot { active_id, selected_id, items }
}

/// Walking the strip one entry forward and one back returns to the entry
/// the highlight started on, whenever that entry is on a strip of two or
/// more.
pub proof fn law_step_there_and_back(ids: Seq<Seq<char>>, i: int)
    requires
        ids.len() >= 2,
        0 <= i < ids.len(),
        forall|a: int, b: int| 0 <= a < b < ids.len() ==> ids[a] != ids[b],
    ensures
        ({
            let there = moved_selection(ids, ids[i], 1)->0;
            moved_selection(ids, there, -1) == Some(ids[i])
        }),
{
    let n = ids.len() as int;
    lemma_index_in(ids, ids[i], i);
    let j = (i + 1) % n;
    if i + 1 < n {
        vstd::arithmetic::div_mod::lemma_small_mod((i + 1) as nat, n as nat);
        assert(j == i + 1);
    } else {
        vstd::arithmetic::div_mod::lemma_mod_self_0(n);
        assert(j == 0);
    }
    lemma_index_in(ids, ids[j], j);
    if j == i + 1 {
        vstd::arithmetic::div_mod::lemma_small_mod(i as nat, n as nat);
        assert(j - 1 == i);
    } else {
        vstd::arithmetic::div_mod::lemma_mod_sub_multiples_vanish(n - 1, n);
        vstd::arithmetic::div_mod::lemma_small_mod((n - 1) as nat, n as nat);
        assert(-n + (n - 1) == j - 1);
        assert((j - 1) % n == i);
    }
}

} // verus!
