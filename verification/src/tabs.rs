//! The session tab strip: every open session in tab order, the viewed
//! ("live") one spliced in among the parked ones at its tab index.
//!
//! A tab switch parks the live session and brings the target in without
//! reordering the strip; a new session opens at the end.
use vstd::prelude::*;
use crate::staging::short_id;
use crate::text::{is_blank, str_eq, str_is_blank};

verus! {

/// Sessions in tab order: the parked ones with the live one at `current`.
pub open spec fn tab_order<S>(parked: Seq<S>, live: S, current: int) -> Seq<S> {
    parked.insert(current, live)
}

/// A switch to `tab` goes somewhere: another tab that exists.
pub open spec fn switch_allowed(current: int, parked_len: int, tab: int) -> bool {
    tab != current && 0 <= tab <= parked_len
}

/// The parked sessions and the new live one after switching to `tab`.
pub open spec fn switched<S>(parked: Seq<S>, live: S, current: int, tab: int) -> (Seq<S>, S) {
    let order = tab_order(parked, live, current);
    (order.remove(tab), order[tab])
}

/// Whether switching from tab `current` to tab `tab` goes anywhere.
pub fn can_switch(current: usize, parked_len: usize, tab: usize) -> (r: bool)
    ensures
        r == switch_allowed(current as int, parked_len as int, tab as int),
{
    tab != current && tab <= parked_len
}

/// Switch the view to tab `tab`: the live session is parked where it keeps
/// its place in the strip, and the target leaves the parked list to become
/// the live one.
pub fn switch_parked<S>(parked: &mut Vec<S>, current: usize, tab: usize, live: S) -> (target: S)
    requires
        current <= old(parked).len(),
        switch_allowed(current as int, old(parked).len() as int, tab as int),
    ensures
        (final(parked)@, target) == switched(old(parked)@, live, current as int, tab as int),
{
    let ghost order = tab_order(parked@, live, current as int);
    let pidx = if tab < current {
        tab
    } else {
        tab - 1
    };
    let target = parked.remove(pidx);
    let park_at = if current < tab {
        current
    } else {
        current - 1
    };
    parked.insert(park_at, live);
    assert(parked@ =~= order.remove(tab as int));
    target
}

/// Park the live session at its place and open a fresh one at the end of
/// the strip; the fresh tab's index.
pub fn open_parked<S>(parked: &mut Vec<S>, current: usize, live: S) -> (fresh_at: usize)
    requires
        current <= old(parked).len(),
        old(parked).len() < usize::MAX,
    ensures
        final(parked)@ == tab_order(old(parked)@, live, current as int),
        fresh_at == final(parked)@.len(),
{
    parked.insert(current, live);
    parked.len()
}

/// A switch keeps the strip: the sessions stand in the same tab order, and
/// the target is the session that stood at the chosen tab.
pub proof fn law_switch_keeps_order<S>(parked: Seq<S>, live: S, current: int, tab: int)
    requires
        0 <= current <= parked.len(),
        switch_allowed(current, parked.len() as int, tab),
    ensures
        ({
            let (after, target) = switched(parked, live, current, tab);
            &&& target == tab_order(parked, live, current)[tab]
            &&& tab_order(after, target, tab) == tab_order(parked, live, current)
        }),
{
    let order = tab_order(parked, live, current);
    assert(order.remove(tab).insert(tab, order[tab]) =~= order);
}

/// Switching back to the tab one came from restores the parked sessions and
/// the live one.
pub proof fn law_switch_round_trip<S>(parked: Seq<S>, live: S, current: int, tab: int)
    requires
        0 <= current <= parked.len(),
        switch_allowed(current, parked.len() as int, tab),
    ensures
        ({
            let (after, target) = switched(parked, live, current, tab);
            switched(after, target, tab, current) == (parked, live)
        }),
{
    let order = tab_order(parked, live, current);
    assert(order.remove(tab).insert(tab, order[tab]) =~= order);
    assert(order.remove(current) =~= parked);
}

/// Opening a session appends it to the strip: the old tabs keep their order
/// and the fresh one is last.
pub proof fn law_open_appends<S>(parked: Seq<S>, live: S, current: int, fresh: S)
    requires
        0 <= current <= parked.len(),
    ensures
        ({
            let after = tab_order(parked, live, current);
            tab_order(after, fresh, after.len() as int) == tab_order(parked, live, current).push(fresh)
        }),
{
    let after = tab_order(parked, live, current);
    assert(after.insert(after.len() as int, fresh) =~= after.push(fresh));
}

/// Where the view goes when the live tab closes: the right neighbour when
/// one exists, else the tab on the left; as (parked position, new tab index).
pub open spec fn close_neighbor(parked_len: int, current: int) -> int {
    if current < parked_len { current } else { current - 1 }
}

/// Close the live tab (never the last one): the neighbour it names leaves
/// the parked list to become live; the new live tab's index, or `None` when
/// the live tab is the only one.
pub fn close_live<S>(parked: &mut Vec<S>, current: usize) -> (r: Option<(S, usize)>)
    requires
        current <= old(parked).len(),
    ensures
        old(parked).len() == 0 ==> r is None && final(parked)@ == old(parked)@,
        old(parked).len() > 0 ==> (r matches Some((target, at)) && {
            &&& at as int == close_neighbor(old(parked).len() as int, current as int)
            &&& target == old(parked)@[at as int]
            &&& final(parked)@ == old(parked)@.remove(at as int)
        }),
{
    if parked.len() == 0 {
        return None;
    }
    let at = if current < parked.len() { current } else { current - 1 };
    let target = parked.remove(at);
    Some((target, at))
}

/// Closing the live tab drops it and nothing else: the remaining tabs keep
/// their order, and the view lands on the tab to its right, else its left.
pub proof fn law_close_keeps_the_rest<S>(parked: Seq<S>, live: S, current: int)
    requires
        0 <= current <= parked.len(),
        parked.len() > 0,
    ensures
        ({
            let at = close_neighbor(parked.len() as int, current);
            &&& tab_order(parked.remove(at), parked[at], at) == tab_order(parked, live, current).remove(current)
            &&& (current < parked.len() ==> parked[at] == tab_order(parked, live, current)[current + 1])
            &&& (current == parked.len() ==> parked[at] == tab_order(parked, live, current)[current - 1])
        }),
{
    let at = close_neighbor(parked.len() as int, current);
    assert(parked.remove(at).insert(at, parked[at]) =~= parked);
    assert(tab_order(parked, live, current).remove(current) =~= parked);
}

/// The notes on what closing a tab threw away, in order.
pub open spec fn close_notes(running: bool, discarded: nat, had_draft: bool, had_ask: bool) -> Seq<Seq<char>> {
    (if running { seq!["its running turn keeps settling"@] } else { seq![] })
        + (if discarded > 0 { seq![crate::numfmt::decimal(discarded) + " queued dropped"@] } else { seq![] })
        + (if had_draft { seq!["draft dropped"@] } else { seq![] })
        + (if had_ask { seq!["pending ask cancelled"@] } else { seq![] })
}

/// The tip after closing the tab of session `doomed`.
pub open spec fn close_tip_text(label: Seq<char>, notes: Seq<Seq<char>>, zh: bool) -> Seq<char> {
    let head = if zh { "已关闭 "@ } else { "closed "@ };
    if notes.len() == 0 {
        head + label
    } else {
        head + label + " · "@ + crate::harness::join(notes, ", "@)
    }
}

/// The tip after closing the tab of session `doomed`: its short id and what
/// was dropped with it.
pub fn close_tip(doomed: &str, running: bool, discarded: usize, had_draft: bool, had_ask: bool, zh: bool) -> (r: String)
    ensures
        r@ == close_tip_text(crate::staging::short_id_of(doomed@), close_notes(running, discarded as nat, had_draft, had_ask), zh),
{
    let mut notes: Vec<String> = Vec::new();
    if running {
        notes.push("its running turn keeps settling".to_owned());
    }
    if discarded > 0 {
        let n = crate::numfmt::format_decimal(discarded as u64);
        notes.push(crate::text::concat_str(n.as_str(), " queued dropped"));
    }
    if had_draft {
        notes.push("draft dropped".to_owned());
    }
    if had_ask {
        notes.push("pending ask cancelled".to_owned());
    }
    let ghost want = close_notes(running, discarded as nat, had_draft, had_ask);
    assert(notes@.map_values(|t: String| t@) =~= want);
    let label = short_id(doomed);
    let head = crate::text::concat_str(if zh { "已关闭 " } else { "closed " }, label.as_str());
    if notes.len() == 0 {
        head
    } else {
        let tail = crate::text::join_with(&notes, ", ");
        let a = crate::text::concat_str(head.as_str(), " · ");
        crate::text::concat_str(a.as_str(), tail.as_str())
    }
}

/// What the tab strip reads of one session.
pub struct TabFacts {
    pub id: String,
    pub title: Option<String>,
    /// Mid-turn: the session's running bit (for the live session, its run
    /// state is not idle).
    pub running: bool,
    pub prompt_pending: bool,
    pub completed_unseen: bool,
    /// A permission or elicitation ask waits for this session.
    pub ask_pending: bool,
}

/// One row of the session tab strip.
pub struct SessionTab {
    pub label: String,
    pub running: bool,
    pub completed_unseen: bool,
    pub ask_pending: bool,
    pub current: bool,
}

pub struct SessionTabView {
    pub label: Seq<char>,
    pub running: bool,
    pub completed_unseen: bool,
    pub ask_pending: bool,
    pub current: bool,
}

impl View for SessionTab {
    type V = SessionTabView;

    open spec fn view(&self) -> SessionTabView {
        SessionTabView {
            label: self.label@,
            running: self.running,
            completed_unseen: self.completed_unseen,
            ask_pending: self.ask_pending,
            current: self.current,
        }
    }
}

/// A tab's label: its title unless blank, else the short id.
pub open spec fn tab_label(facts: TabFacts) -> Seq<char> {
    match facts.title {
        Some(t) => if !is_blank(t@) {
            t@
        } else {
            facts.id@.take(if facts.id@.len() < 8 { facts.id@.len() as int } else { 8 })
        },
        None => facts.id@.take(if facts.id@.len() < 8 { facts.id@.len() as int } else { 8 }),
    }
}

/// The row a session makes in the strip.
pub open spec fn tab_row(facts: TabFacts, live: bool) -> SessionTabView {
    SessionTabView {
        label: tab_label(facts),
        running: facts.running || facts.prompt_pending,
        completed_unseen: !live && facts.completed_unseen,
        ask_pending: facts.ask_pending,
        current: live,
    }
}

fn label_of(facts: &TabFacts) -> (r: String)
    ensures
        r@ == tab_label(*facts),
{
    match &facts.title {
        Some(t) => if !str_is_blank(t.as_str()) {
            t.clone()
        } else {
            short_id(facts.id.as_str())
        },
        None => short_id(facts.id.as_str()),
    }
}

fn row_of(facts: &TabFacts, live: bool) -> (r: SessionTab)
    ensures
        r@ == tab_row(*facts, live),
{
    SessionTab {
        label: label_of(facts),
        running: facts.running || facts.prompt_pending,
        completed_unseen: !live && facts.completed_unseen,
        ask_pending: facts.ask_pending,
        current: live,
    }
}

/// The tab strip: every session in tab order, the live one marked current
/// and never flagged as finished unseen.
pub fn session_tabs(parked: &Vec<TabFacts>, live: &TabFacts, current: usize) -> (r: Vec<SessionTab>)
    requires
        current <= parked.len(),
    ensures
        r@.map_values(|t: SessionTab| t@) == tab_order(
            parked@.map_values(|f: TabFacts| tab_row(f, false)),
            tab_row(*live, true),
            current as int,
        ),
{
    let mut tabs: Vec<SessionTab> = Vec::new();
    let mut i: usize = 0;
    while i < parked.len()
        invariant
            i <= parked.len(),
            tabs@.map_values(|t: SessionTab| t@) == parked@.take(i as int).map_values(
                |f: TabFacts| tab_row(f, false),
            ),
        decreases parked.len() - i,
    {
        let ghost before = tabs@.map_values(|t: SessionTab| t@);
        let row = row_of(&parked[i], false);
        tabs.push(row);
        assert(tabs@.map_values(|t: SessionTab| t@) =~= before.push(row@));
        assert(parked@.take(i + 1).map_values(|f: TabFacts| tab_row(f, false)) =~= parked@.take(
            i as int,
        ).map_values(|f: TabFacts| tab_row(f, false)).push(tab_row(parked@[i as int], false)));
        i = i + 1;
    }
    assert(parked@.take(parked.len() as int) =~= parked@);
    let ghost before = tabs@.map_values(|t: SessionTab| t@);
    let row = row_of(live, true);
    tabs.insert(current, row);
    assert(tabs@.map_values(|t: SessionTab| t@) =~= before.insert(current as int, row@));
    tabs
}

/// Tab index of the session with this id: the live tab when it is the live
/// session, else the tab of its first parked slot.
pub open spec fn tab_index(live_id: Seq<char>, parked_ids: Seq<Seq<char>>, current: int, id: Seq<char>) -> Option<int> {
    if live_id == id {
        Some(current)
    } else {
        match first_with(parked_ids, id) {
            Some(p) => Some(if p < current { p } else { p + 1 }),
            None => None,
        }
    }
}

/// The first position of `id` in `ids`.
pub open spec fn first_with(ids: Seq<Seq<char>>, id: Seq<char>) -> Option<int>
    decreases ids.len(),
{
    if ids.len() == 0 {
        None
    } else if ids[0] == id {
        Some(0)
    } else {
        match first_with(ids.drop_first(), id) {
            Some(k) => Some(k + 1),
            None => None,
        }
    }
}

pub proof fn lemma_first_with(ids: Seq<Seq<char>>, id: Seq<char>, k: int)
    requires
        0 <= k <= ids.len(),
        forall|j: int| 0 <= j < k ==> #[trigger] ids[j] != id,
    ensures
        k < ids.len() && ids[k] == id ==> first_with(ids, id) == Some(k),
        k == ids.len() ==> first_with(ids, id) is None,
    decreases k,
{
    if k > 0 {
        assert forall|j: int| 0 <= j < k - 1 implies #[trigger] ids.drop_first()[j] != id by {
            assert(ids.drop_first()[j] == ids[j + 1]);
        }
        if k < ids.len() {
            assert(ids.drop_first()[k - 1] == ids[k]);
        }
        lemma_first_with(ids.drop_first(), id, k - 1);
        assert(ids[0] != id);
    }
}

/// A found position holds the id.
pub proof fn lemma_first_with_found(ids: Seq<Seq<char>>, id: Seq<char>)
    ensures
        first_with(ids, id) matches Some(i) ==> 0 <= i < ids.len() && ids[i] == id,
    decreases ids.len(),
{
    if ids.len() > 0 && ids[0] != id {
        lemma_first_with_found(ids.drop_first(), id);
    }
}

/// The ids of tab facts, in order.
pub open spec fn ids_of(facts: Seq<TabFacts>) -> Seq<Seq<char>> {
    facts.map_values(|f: TabFacts| f.id@)
}

/// Tab index of the session with this id (live or parked).
pub fn tab_index_of(live_id: &str, parked: &Vec<TabFacts>, current: usize, id: &str) -> (r: Option<usize>)
    requires
        current <= parked.len(),
    ensures
        match r {
            Some(i) => tab_index(live_id@, ids_of(parked@), current as int, id@) == Some(i as int),
            None => tab_index(live_id@, ids_of(parked@), current as int, id@) is None,
        },
{
    if str_eq(live_id, id) {
        return Some(current);
    }
    let ghost ids = ids_of(parked@);
    let mut p: usize = 0;
    while p < parked.len()
        invariant
            p <= parked.len(),
            ids == ids_of(parked@),
            live_id@ != id@,
            current <= parked.len(),
            forall|j: int| 0 <= j < p ==> #[trigger] ids[j] != id@,
        decreases parked.len() - p,
    {
        assert(ids[p as int] == parked@[p as int].id@);
        if str_eq(parked[p].id.as_str(), id) {
            proof {
                lemma_first_with(ids, id@, p as int);
            }
            return Some(
                if p < current {
                    p
                } else {
                    p + 1
                },
            );
        }
        p = p + 1;
    }
    proof {
        lemma_first_with(ids, id@, p as int);
    }
    None
}

/// Whether a session was mid-turn: the live session by its run state, a
/// parked one by its running bit.
pub fn session_was_running(session: &str, live_id: &str, live_running: bool, parked: &Vec<TabFacts>) -> (r: bool)
    ensures
        r == if session@ == live_id@ {
            live_running
        } else {
            exists|j: int| 0 <= j < parked@.len() && parked@[j].id@ == session@ && parked@[j].running
        },
{
    if str_eq(session, live_id) {
        return live_running;
    }
    let mut j: usize = 0;
    while j < parked.len()
        invariant
            j <= parked.len(),
            session@ != live_id@,
            forall|q: int| 0 <= q < j ==> !(parked@[q].id@ == session@ && #[trigger] parked@[q].running),
        decreases parked.len() - j,
    {
        if parked[j].running && str_eq(parked[j].id.as_str(), session) {
            assert(parked@[j as int].id@ == session@ && parked@[j as int].running);
            return true;
        }
        j = j + 1;
    }
    false
}

} // verus!
