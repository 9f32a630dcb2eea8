//! The mouse: where a wheel notch goes, what a left click hits first, how
//! the tab strip follows a click on its edge, what counts as a double
//! click, and where the prompt-jump button takes the chat view.
use vstd::prelude::*;

verus! {

/// What the shell has open when the wheel turns.
pub struct WheelFacts {
    pub elicitation: bool,
    pub permission_ask: bool,
    pub plugin_tree: bool,
    pub view_overlay: bool,
    pub select_overlay: bool,
    pub picker: bool,
}

/// Where a wheel notch goes and by how much (negative scrolls up).
#[derive(Clone, Copy, Debug, PartialEq, Eq, Structural)]
pub enum WheelTarget {
    Elicitation(i64),
    PermissionAsk(i64),
    /// The plugin tree scrolls three rows, up or down.
    PluginTree { up: bool },
    ViewOverlay(i64),
    /// A select form moves its highlight as the arrow keys do.
    SelectForm { up: bool },
    Picker(i64),
    /// The conversation's scroll-back grows by this many rows.
    Chat(i64),
}

pub open spec fn wheel_target_of(f: WheelFacts, up: bool) -> WheelTarget {
    let sign: i64 = if up { -1i64 } else { 1i64 };
    if f.elicitation {
        WheelTarget::Elicitation((3 * sign) as i64)
    } else if f.permission_ask {
        WheelTarget::PermissionAsk(sign)
    } else if f.plugin_tree {
        WheelTarget::PluginTree { up }
    } else if f.view_overlay {
        WheelTarget::ViewOverlay((3 * sign) as i64)
    } else if f.select_overlay {
        WheelTarget::SelectForm { up }
    } else if f.picker {
        WheelTarget::Picker(sign)
    } else {
        WheelTarget::Chat((-3 * sign) as i64)
    }
}

/// A wheel notch goes to the topmost scrollable surface; with none open it
/// scrolls the conversation, three rows a notch.
pub fn wheel_target(f: &WheelFacts, up: bool) -> (r: WheelTarget)
    ensures
        r == wheel_target_of(*f, up),
{
    let sign: i64 = if up { -1 } else { 1 };
    if f.elicitation {
        WheelTarget::Elicitation(3 * sign)
    } else if f.permission_ask {
        WheelTarget::PermissionAsk(sign)
    } else if f.plugin_tree {
        WheelTarget::PluginTree { up }
    } else if f.view_overlay {
        WheelTarget::ViewOverlay(3 * sign)
    } else if f.select_overlay {
        WheelTarget::SelectForm { up }
    } else if f.picker {
        WheelTarget::Picker(sign)
    } else {
        WheelTarget::Chat(-3 * sign)
    }
}

/// What lies under a left click, hit-tested against the last frame.
pub struct ClickFacts {
    /// The session tab under the pointer.
    pub tab: Option<usize>,
    /// The plugin slot action under the pointer (its position).
    pub slot_action: Option<usize>,
    /// The transcript cell of a tool block under the pointer.
    pub tool: Option<usize>,
    pub elicitation: bool,
    pub viewing_subagent: bool,
    pub jump_button: bool,
    pub expand_button: bool,
    pub in_composer: bool,
    pub in_chat: bool,
}

/// What a left click does.
#[derive(Clone, Copy, Debug, PartialEq, Eq, Structural)]
pub enum ClickRoute {
    SwitchTab(usize),
    SlotAction(usize),
    ToggleTool(usize),
    JumpToPrompt,
    ToggleExpand,
    /// Put the caret under the pointer and start a composer selection.
    PlaceCaret,
    /// Start a chat selection (or select a word on a double click).
    ChatPress,
    /// A click outside everything drops the highlights.
    DismissSelection,
}

pub open spec fn click_route_of(f: ClickFacts) -> ClickRoute {
    let composer_live = !f.elicitation && !f.viewing_subagent;
    if f.tab is Some {
        ClickRoute::SwitchTab(f.tab->0)
    } else if f.slot_action is Some {
        ClickRoute::SlotAction(f.slot_action->0)
    } else if f.tool is Some {
        ClickRoute::ToggleTool(f.tool->0)
    } else if composer_live && f.jump_button {
        ClickRoute::JumpToPrompt
    } else if composer_live && f.expand_button {
        ClickRoute::ToggleExpand
    } else if composer_live && f.in_composer {
        ClickRoute::PlaceCaret
    } else if f.in_chat {
        ClickRoute::ChatPress
    } else {
        ClickRoute::DismissSelection
    }
}

/// A left click: the tab strip first, then plugin slot actions, tool
/// blocks, the composer's buttons and well (not while a form or a subagent
/// view replaces the composer), then the chat pane.
pub fn click_route(f: &ClickFacts) -> (r: ClickRoute)
    ensures
        r == click_route_of(*f),
{
    let composer_live = !f.elicitation && !f.viewing_subagent;
    if let Some(t) = f.tab {
        return ClickRoute::SwitchTab(t);
    }
    if let Some(a) = f.slot_action {
        return ClickRoute::SlotAction(a);
    }
    if let Some(c) = f.tool {
        return ClickRoute::ToggleTool(c);
    }
    if composer_live && f.jump_button {
        ClickRoute::JumpToPrompt
    } else if composer_live && f.expand_button {
        ClickRoute::ToggleExpand
    } else if composer_live && f.in_composer {
        ClickRoute::PlaceCaret
    } else if f.in_chat {
        ClickRoute::ChatPress
    } else {
        ClickRoute::DismissSelection
    }
}

pub open spec fn seq_min(v: Seq<usize>, dflt: usize) -> usize
    decreases v.len(),
{
    if v.len() == 0 {
        dflt
    } else {
        let m = seq_min(v.drop_last(), v.last());
        if v.last() < m { v.last() } else { m }
    }
}

pub open spec fn seq_max(v: Seq<usize>, dflt: usize) -> usize
    decreases v.len(),
{
    if v.len() == 0 {
        dflt
    } else {
        let m = seq_max(v.drop_last(), v.last());
        if v.last() > m { v.last() } else { m }
    }
}

/// The smallest of `v`, `dflt` when empty.
pub open spec fn min_or(v: Seq<usize>, dflt: usize) -> usize {
    if v.len() == 0 { dflt } else { seq_min(v, v[0]) }
}

/// The largest of `v`, `dflt` when empty.
pub open spec fn max_or(v: Seq<usize>, dflt: usize) -> usize {
    if v.len() == 0 { dflt } else { seq_max(v, v[0]) }
}

proof fn lemma_min_dflt(v: Seq<usize>, a: usize, b: usize)
    requires
        v.len() > 0,
    ensures
        seq_min(v, a) == seq_min(v, b),
        seq_max(v, a) == seq_max(v, b),
    decreases v.len(),
{
    if v.len() > 1 {
        lemma_min_dflt(v.drop_last(), v.last(), v.last());
    }
}

fn min_max(v: &Vec<usize>, dflt: usize) -> (r: (usize, usize))
    ensures
        r.0 == min_or(v@, dflt),
        r.1 == max_or(v@, dflt),
{
    if v.len() == 0 {
        return (dflt, dflt);
    }
    let mut lo = v[0];
    let mut hi = v[0];
    let mut i: usize = 1;
    proof {
        assert(v@.take(1).drop_last() =~= Seq::<usize>::empty());
        assert(v@.take(1).last() == v@[0]);
        assert(seq_min(v@.take(1).drop_last(), v@[0]) == v@[0]);
        assert(seq_max(v@.take(1).drop_last(), v@[0]) == v@[0]);
    }
    while i < v.len()
        invariant
            1 <= i <= v.len(),
            lo == seq_min(v@.take(i as int), v@[0]),
            hi == seq_max(v@.take(i as int), v@[0]),
        decreases v.len() - i,
    {
        let x = v[i];
        proof {
            assert(v@.take(i + 1).drop_last() =~= v@.take(i as int));
            assert(v@.take(i + 1).last() == x);
            lemma_min_dflt(v@.take(i as int), x, v@[0]);
        }
        if x < lo {
            lo = x;
        }
        if x > hi {
            hi = x;
        }
        i = i + 1;
    }
    assert(v@.take(v.len() as int) =~= v@);
    (lo, hi)
}

/// The strip's offset after a click switched to `tab`: clicking the
/// outermost visible tab nudges the strip one step so its neighbour shows.
pub open spec fn strip_offset_after(tab: usize, visible: Seq<usize>, tab_count: usize, offset: usize) -> usize {
    let first = min_or(visible, tab);
    let last = max_or(visible, tab);
    if tab == first && tab > 0 {
        if offset > 0 { (offset - 1) as usize } else { 0 }
    } else if tab == last && tab + 1 < tab_count {
        if offset < usize::MAX { (offset + 1) as usize } else { usize::MAX }
    } else {
        offset
    }
}

/// The tab strip's offset after a click on `tab`, given the tabs drawn.
pub fn strip_offset_after_click(tab: usize, visible: &Vec<usize>, tab_count: usize, offset: usize) -> (r: usize)
    ensures
        r == strip_offset_after(tab, visible@, tab_count, offset),
{
    let (first, last) = min_max(visible, tab);
    if tab == first && tab > 0 {
        offset.saturating_sub(1)
    } else if tab == last && tab < usize::MAX && tab + 1 < tab_count {
        offset.saturating_add(1)
    } else {
        offset
    }
}

/// How close in time two clicks must come to make a double click.
pub const DOUBLE_CLICK_WINDOW_MS: u64 = 400;

pub open spec fn double_click(last: Option<(u64, u16, u16)>, now_ms: u64, col: u16, row: u16) -> bool {
    match last {
        Some((at, x, y)) => {
            let elapsed: int = if now_ms >= at { now_ms - at } else { 0 };
            &&& elapsed < DOUBLE_CLICK_WINDOW_MS
            &&& (if x >= col { x - col } else { col - x }) <= 1
            &&& y == row
        },
        None => false,
    }
}

/// A click at `(col, row)` completes a double click when the previous one
/// came within the window, at most one column away on the same row.
pub fn is_double_click(last: Option<(u64, u16, u16)>, now_ms: u64, col: u16, row: u16) -> (r: bool)
    ensures
        r == double_click(last, now_ms, col, row),
{
    match last {
        Some((at, x, y)) => {
            let elapsed: u64 = if now_ms >= at { now_ms - at } else { 0 };
            let dx: u16 = if x >= col { x - col } else { col - x };
            elapsed < DOUBLE_CLICK_WINDOW_MS && dx <= 1 && y == row
        },
        None => false,
    }
}

/// Where the prompt-jump button takes the chat view.
#[derive(Clone, Copy, Debug, PartialEq, Eq, Structural)]
pub struct JumpPlan {
    /// The transcript cell of the prompt jumped to.
    pub cell: usize,
    /// Its rank counting from the newest prompt (the newest is 1).
    pub from_newest: usize,
    /// Rows scrolled back from the tail.
    pub scroll_up: usize,
    /// The first row shown, when the view is not at the tail.
    pub manual_top: Option<usize>,
}

/// The first position of a prompt in cell `cell`.
pub open spec fn first_rank(users: Seq<(usize, usize)>, cell: usize) -> Option<int>
    decreases users.len(),
{
    if users.len() == 0 {
        None
    } else if users[0].0 == cell {
        Some(0)
    } else {
        match first_rank(users.drop_first(), cell) {
            Some(i) => Some(i + 1),
            None => None,
        }
    }
}

/// The last position of a prompt in cell `cell`.
pub open spec fn last_rank(users: Seq<(usize, usize)>, cell: usize) -> Option<int>
    decreases users.len(),
{
    if users.len() == 0 {
        None
    } else if users.last().0 == cell {
        Some(users.len() - 1)
    } else {
        last_rank(users.drop_last(), cell)
    }
}

/// The prompt to jump to: one older than the previous jump's, the newest
/// when the previous was the oldest or there was none.
pub open spec fn jump_target(users: Seq<(usize, usize)>, last_cell: Option<usize>) -> (usize, usize) {
    let newest = users[users.len() - 1];
    match last_cell {
        Some(c) => match first_rank(users, c) {
            Some(rank) => if rank > 0 { users[rank - 1] } else { newest },
            None => newest,
        },
        None => newest,
    }
}

/// The jump for prompts `(cell, first line)` in display order, a view of
/// `height` rows over `total` rows; none without prompts.
pub open spec fn jump_plan_of(users: Seq<(usize, usize)>, last_cell: Option<usize>, total: usize, height: usize) -> Option<JumpPlan> {
    if users.len() == 0 {
        None
    } else {
        let target = jump_target(users, last_cell);
        let max_scroll: int = if total >= height { total - height } else { 0 };
        let start: int = if target.1 < max_scroll { target.1 as int } else { max_scroll };
        let end: int = if start + height < total { start + height } else { total as int };
        let scroll_up: int = total - end;
        Some(JumpPlan {
            cell: target.0,
            from_newest: match last_rank(users, target.0) {
                Some(rank) => (users.len() - rank) as usize,
                None => 1,
            },
            scroll_up: scroll_up as usize,
            manual_top: if scroll_up > 0 { Some(start as usize) } else { None },
        })
    }
}

proof fn lemma_first_rank(users: Seq<(usize, usize)>, cell: usize, k: int)
    requires
        0 <= k <= users.len(),
        forall|j: int| 0 <= j < k ==> (#[trigger] users[j]).0 != cell,
    ensures
        k < users.len() && users[k].0 == cell ==> first_rank(users, cell) == Some(k),
        k == users.len() ==> first_rank(users, cell) is None,
    decreases k,
{
    if k > 0 {
        assert forall|j: int| 0 <= j < k - 1 implies (#[trigger] users.drop_first()[j]).0 != cell by {
            assert(users.drop_first()[j] == users[j + 1]);
        }
        if k < users.len() {
            assert(users.drop_first()[k - 1] == users[k]);
        }
        lemma_first_rank(users.drop_first(), cell, k - 1);
    }
}

proof fn lemma_last_rank(users: Seq<(usize, usize)>, cell: usize, k: int)
    requires
        0 <= k <= users.len(),
        forall|j: int| k <= j < users.len() ==> (#[trigger] users[j]).0 != cell,
    ensures
        k > 0 && users[k - 1].0 == cell ==> last_rank(users, cell) == Some(k - 1),
        k == 0 ==> last_rank(users, cell) is None,
    decreases users.len() - k,
{
    if users.len() > 0 && k < users.len() {
        let d = users.drop_last();
        assert forall|j: int| k <= j < d.len() implies (#[trigger] d[j]).0 != cell by {
            assert(d[j] == users[j]);
        }
        assert(users.last() == users[users.len() - 1]);
        lemma_last_rank(d, cell, k);
        if k > 0 {
            assert(d[k - 1] == users[k - 1]);
        }
    }
}

/// Where the prompt-jump button takes the chat view.
pub fn jump_plan(users: &Vec<(usize, usize)>, last_cell: Option<usize>, total: usize, height: usize) -> (r: Option<JumpPlan>)
    ensures
        r == jump_plan_of(users@, last_cell, total, height),
{
    let n = users.len();
    if n == 0 {
        return None;
    }
    let newest = users[n - 1];
    let target: (usize, usize) = match last_cell {
        Some(c) => {
            let mut i: usize = 0;
            let mut found = false;
            while i < n && !found
                invariant
                    i <= n == users.len(),
                    found ==> i < n && users@[i as int].0 == c,
                    forall|j: int| 0 <= j < i ==> (#[trigger] users@[j]).0 != c,
                decreases n - i + (if found { 0int } else { 1int }),
            {
                if users[i].0 == c {
                    found = true;
                } else {
                    i = i + 1;
                }
            }
            proof {
                lemma_first_rank(users@, c, i as int);
            }
            if found && i > 0 {
                users[i - 1]
            } else {
                newest
            }
        },
        None => newest,
    };
    let mut k: usize = n;
    let mut hit = false;
    while k > 0 && !hit
        invariant
            k <= n == users.len(),
            hit ==> k > 0 && users@[k - 1].0 == target.0,
            forall|j: int| k <= j < n ==> (#[trigger] users@[j]).0 != target.0,
        decreases k + (if hit { 0int } else { 1int }),
    {
        if users[k - 1].0 == target.0 {
            hit = true;
        } else {
            k = k - 1;
        }
    }
    proof {
        lemma_last_rank(users@, target.0, k as int);
    }
    let from_newest: usize = if hit {
        n - (k - 1)
    } else {
        1
    };
    let max_scroll: usize = if total >= height { total - height } else { 0 };
    let start: usize = if target.1 < max_scroll { target.1 } else { max_scroll };
    let end: usize = if start < total && height < total - start { start + height } else { total };
    let scroll_up: usize = total - end;
    Some(JumpPlan {
        cell: target.0,
        from_newest,
        scroll_up,
        manual_top: if scroll_up > 0 { Some(start) } else { None },
    })
}

/// Each jump goes one prompt older than the last, and the oldest wraps to
/// the newest: from the prompt at rank `k` (by its cell, when cells are
/// distinct) the next jump lands on rank `k - 1`, or on the newest.
pub proof fn law_jump_walks_back_and_wraps(users: Seq<(usize, usize)>, k: int)
    requires
        0 <= k < users.len(),
        forall|a: int, b: int| 0 <= a < b < users.len() ==> users[a].0 != users[b].0,
    ensures
        jump_target(users, Some(users[k].0)) == if k > 0 { users[k - 1] } else { users[users.len() - 1] },
{
    lemma_first_rank(users, users[k].0, k);
}

} // verus!
