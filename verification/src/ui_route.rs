//! Where a session update lands. Updates carry the session (or subagent)
//! they belong to: the live tab, one of its subagent views, a parked tab or
//! a parked tab's subagent; anything else is dropped, so a foreign session
//! never leaks into the live transcript. Mode facts fold into the owner's
//! mode state, and a parked tab tracks whether it finished unseen.
use vstd::prelude::*;
use crate::agents::{index_in, lemma_index_in, lemma_index_in_range, ids_view};
use crate::modes::{Modes, opt_view};
use crate::picker::SubagentView;
use crate::text::str_eq;

verus! {

/// A parked tab's session id and its subagent views' ids.
pub struct SlotAgents {
    pub id: String,
    pub views: Vec<String>,
}

/// Where an update for a session goes.
#[derive(Clone, Copy, Debug, PartialEq, Eq, Structural)]
pub enum UiDest {
    Live,
    /// The live tab's subagent view at this position.
    LiveView(usize),
    /// The parked tab at this position.
    Slot(usize),
    /// A parked tab's subagent view: tab position, view position.
    SlotView(usize, usize),
    Drop,
}

/// The first parked tab that owns `session` (as its own id or one of its
/// views), with the view position when it is a view.
pub open spec fn slot_owner(parked: Seq<SlotAgents>, session: Seq<char>) -> Option<(int, Option<int>)>
    decreases parked.len(),
{
    if parked.len() == 0 {
        None
    } else if parked[0].id@ == session {
        Some((0, None))
    } else if index_in(ids_view(parked[0].views@), session) is Some {
        Some((0, index_in(ids_view(parked[0].views@), session)))
    } else {
        match slot_owner(parked.drop_first(), session) {
            Some((j, v)) => Some((j + 1, v)),
            None => None,
        }
    }
}

pub open spec fn dest_of_slot(hit: Option<(int, Option<int>)>) -> UiDest {
    match hit {
        Some((j, None)) => UiDest::Slot(j as usize),
        Some((j, Some(k))) => UiDest::SlotView(j as usize, k as usize),
        None => UiDest::Drop,
    }
}

/// Where an update for `session` goes: the live tab, its subagent view,
/// else the first parked tab owning it; else nowhere.
pub open spec fn session_dest_of(live_id: Seq<char>, live_views: Seq<Seq<char>>, parked: Seq<SlotAgents>, session: Seq<char>) -> UiDest {
    if session == live_id {
        UiDest::Live
    } else if index_in(live_views, session) is Some {
        UiDest::LiveView(index_in(live_views, session)->0 as usize)
    } else {
        dest_of_slot(slot_owner(parked, session))
    }
}

fn position_in(ids: &Vec<String>, id: &str) -> (r: Option<usize>)
    ensures
        match r {
            Some(i) => index_in(ids_view(ids@), id@) == Some(i as int),
            None => index_in(ids_view(ids@), id@) is None,
        },
{
    let ghost v = ids_view(ids@);
    let mut i: usize = 0;
    let mut found = false;
    while i < ids.len() && !found
        invariant
            i <= ids.len(),
            v == ids_view(ids@),
            found ==> i < ids.len() && v[i as int] == id@,
            forall|j: int| 0 <= j < i ==> v[j] != id@,
        decreases ids.len() - i + (if found { 0int } else { 1int }),
    {
        if str_eq(ids[i].as_str(), id) {
            found = true;
        } else {
            i = i + 1;
        }
    }
    proof {
        lemma_index_in(v, id@, i as int);
    }
    if found {
        Some(i)
    } else {
        None
    }
}

fn find_slot(parked: &Vec<SlotAgents>, session: &str) -> (r: Option<(usize, Option<usize>)>)
    ensures
        match r {
            Some((j, v)) => slot_owner(parked@, session@) == Some((j as int, match v {
                Some(k) => Some(k as int),
                None => None,
            })),
            None => slot_owner(parked@, session@) is None,
        },
{
    let mut j: usize = 0;
    assert(parked@.skip(0) =~= parked@);
    while j < parked.len()
        invariant
            j <= parked.len(),
            slot_owner(parked@, session@) == match slot_owner(parked@.skip(j as int), session@) {
                Some((a, v)) => Some((a + j, v)),
                None => None,
            },
        decreases parked.len() - j,
    {
        let ghost rest = parked@.skip(j as int);
        assert(rest[0] == parked@[j as int]);
        assert(rest.drop_first() =~= parked@.skip(j + 1));
        if str_eq(parked[j].id.as_str(), session) {
            return Some((j, None));
        }
        match position_in(&parked[j].views, session) {
            Some(k) => {
                return Some((j, Some(k)));
            },
            None => {},
        }
        j = j + 1;
    }
    None
}

/// Where an update for `session` goes.
pub fn session_dest(live_id: &str, live_views: &Vec<String>, parked: &Vec<SlotAgents>, session: &str) -> (r: UiDest)
    ensures
        r == session_dest_of(live_id@, ids_view(live_views@), parked@, session@),
{
    if str_eq(session, live_id) {
        return UiDest::Live;
    }
    if let Some(i) = position_in(live_views, session) {
        return UiDest::LiveView(i);
    }
    match find_slot(parked, session) {
        Some((j, None)) => UiDest::Slot(j),
        Some((j, Some(k))) => UiDest::SlotView(j, k),
        None => UiDest::Drop,
    }
}

/// Where a subagent start is registered: with the live tab when the
/// parent is its session or one of its views, else with the first parked
/// tab owning the parent; else nowhere.
pub open spec fn start_dest_of(live_id: Seq<char>, live_views: Seq<Seq<char>>, parked: Seq<SlotAgents>, parent: Seq<char>) -> UiDest {
    if parent == live_id || index_in(live_views, parent) is Some {
        UiDest::Live
    } else {
        match slot_owner(parked, parent) {
            Some((j, _)) => UiDest::Slot(j as usize),
            None => UiDest::Drop,
        }
    }
}

/// Where the start of a subagent of `parent` is registered.
pub fn start_dest(live_id: &str, live_views: &Vec<String>, parked: &Vec<SlotAgents>, parent: &str) -> (r: UiDest)
    ensures
        r == start_dest_of(live_id@, ids_view(live_views@), parked@, parent@),
{
    if str_eq(parent, live_id) {
        return UiDest::Live;
    }
    if position_in(live_views, parent).is_some() {
        return UiDest::Live;
    }
    match find_slot(parked, parent) {
        Some((j, _)) => UiDest::Slot(j),
        None => UiDest::Drop,
    }
}

/// The first parked tab with a view of `child`, and that view.
pub open spec fn slot_with_view(parked: Seq<SlotAgents>, child: Seq<char>) -> Option<(int, int)>
    decreases parked.len(),
{
    if parked.len() == 0 {
        None
    } else if index_in(ids_view(parked[0].views@), child) is Some {
        Some((0, index_in(ids_view(parked[0].views@), child)->0))
    } else {
        match slot_with_view(parked.drop_first(), child) {
            Some((j, k)) => Some((j + 1, k)),
            None => None,
        }
    }
}

/// Where the end of subagent `child` is settled: its live view, else its
/// view in the first parked tab that has one; else nowhere.
pub open spec fn finish_dest_of(live_views: Seq<Seq<char>>, parked: Seq<SlotAgents>, child: Seq<char>) -> UiDest {
    if index_in(live_views, child) is Some {
        UiDest::LiveView(index_in(live_views, child)->0 as usize)
    } else {
        match slot_with_view(parked, child) {
            Some((j, k)) => UiDest::SlotView(j as usize, k as usize),
            None => UiDest::Drop,
        }
    }
}

/// Where the end of subagent `child` is settled.
pub fn finish_dest(live_views: &Vec<String>, parked: &Vec<SlotAgents>, child: &str) -> (r: UiDest)
    ensures
        r == finish_dest_of(ids_view(live_views@), parked@, child@),
{
    if let Some(i) = position_in(live_views, child) {
        return UiDest::LiveView(i);
    }
    let mut j: usize = 0;
    assert(parked@.skip(0) =~= parked@);
    while j < parked.len()
        invariant
            j <= parked.len(),
            index_in(ids_view(live_views@), child@) is None,
            slot_with_view(parked@, child@) == match slot_with_view(parked@.skip(j as int), child@) {
                Some((a, k)) => Some((a + j, k)),
                None => None,
            },
        decreases parked.len() - j,
    {
        let ghost rest = parked@.skip(j as int);
        assert(rest[0] == parked@[j as int]);
        assert(rest.drop_first() =~= parked@.skip(j + 1));
        match position_in(&parked[j].views, child) {
            Some(k) => {
                return UiDest::SlotView(j, k);
            },
            None => {},
        }
        j = j + 1;
    }
    UiDest::Drop
}

/// A session fact an update reports.
pub enum SessionFact {
    PlanMode(bool),
    SandboxMode(String),
    ApprovalPolicy(String),
    PermissionPreset(String),
    AgentPreset(String),
    ReasoningEffort(String),
    Title(String),
    Model(String),
}

/// The session facts a tab keeps beside its transcript.
pub struct FactState {
    pub modes: Modes,
    pub title: Option<String>,
    pub model: Option<String>,
}

/// Fold `fact` into a tab's state; the result says whether the update is
/// also shown in the transcript (an unchanged plan mode, the agent preset,
/// the effort and the model are not).
pub fn fold_fact(state: &mut FactState, fact: SessionFact) -> (echo: bool)
    ensures
        match fact {
            SessionFact::PlanMode(on) => {
                &&& final(state).modes.plan == on
                &&& echo == (old(state).modes.plan != on)
                &&& final(state).modes.sandbox == old(state).modes.sandbox
                &&& final(state).modes.approval == old(state).modes.approval
                &&& final(state).modes.permission == old(state).modes.permission
                &&& final(state).modes.agent_preset == old(state).modes.agent_preset
                &&& final(state).modes.effort == old(state).modes.effort
                &&& final(state).title == old(state).title
                &&& final(state).model == old(state).model
            },
            SessionFact::SandboxMode(s) => echo && opt_view(final(state).modes.sandbox) == Some(s@)
                && final(state).modes.plan == old(state).modes.plan && final(state).modes.approval == old(
                state,
            ).modes.approval && final(state).modes.permission == old(state).modes.permission
                && final(state).modes.agent_preset == old(state).modes.agent_preset && final(state).modes.effort
                == old(state).modes.effort && final(state).title == old(state).title && final(state).model == old(
                state,
            ).model,
            SessionFact::ApprovalPolicy(s) => echo && opt_view(final(state).modes.approval) == Some(s@)
                && final(state).modes.plan == old(state).modes.plan && final(state).modes.sandbox == old(
                state,
            ).modes.sandbox && final(state).modes.permission == old(state).modes.permission
                && final(state).modes.agent_preset == old(state).modes.agent_preset && final(state).modes.effort
                == old(state).modes.effort && final(state).title == old(state).title && final(state).model == old(
                state,
            ).model,
            SessionFact::PermissionPreset(s) => echo && opt_view(final(state).modes.permission) == Some(s@)
                && final(state).modes.plan == old(state).modes.plan && final(state).modes.sandbox == old(
                state,
            ).modes.sandbox && final(state).modes.approval == old(state).modes.approval
                && final(state).modes.agent_preset == old(state).modes.agent_preset && final(state).modes.effort
                == old(state).modes.effort && final(state).title == old(state).title && final(state).model == old(
                state,
            ).model,
            SessionFact::AgentPreset(s) => !echo && opt_view(final(state).modes.agent_preset) == Some(s@)
                && final(state).modes.plan == old(state).modes.plan && final(state).modes.sandbox == old(
                state,
            ).modes.sandbox && final(state).modes.approval == old(state).modes.approval
                && final(state).modes.permission == old(state).modes.permission && final(state).modes.effort == old(
                state,
            ).modes.effort && final(state).title == old(state).title && final(state).model == old(state).model,
            SessionFact::ReasoningEffort(s) => !echo && opt_view(final(state).modes.effort) == Some(s@)
                && final(state).modes.plan == old(state).modes.plan && final(state).modes.sandbox == old(
                state,
            ).modes.sandbox && final(state).modes.approval == old(state).modes.approval
                && final(state).modes.permission == old(state).modes.permission && final(state).modes.agent_preset
                == old(state).modes.agent_preset && final(state).title == old(state).title && final(state).model
                == old(state).model,
            SessionFact::Title(s) => echo && opt_view(final(state).title) == Some(s@) && final(state).modes == old(
                state,
            ).modes && final(state).model == old(state).model,
            SessionFact::Model(s) => !echo && opt_view(final(state).model) == Some(s@) && final(state).modes == old(
                state,
            ).modes && final(state).title == old(state).title,
        },
{
    match fact {
        SessionFact::PlanMode(on) => {
            if state.modes.plan == on {
                false
            } else {
                state.modes.plan = on;
                true
            }
        },
        SessionFact::SandboxMode(s) => {
            state.modes.sandbox = Some(s);
            true
        },
        SessionFact::ApprovalPolicy(s) => {
            state.modes.approval = Some(s);
            true
        },
        SessionFact::PermissionPreset(s) => {
            state.modes.permission = Some(s);
            true
        },
        SessionFact::AgentPreset(s) => {
            state.modes.agent_preset = Some(s);
            false
        },
        SessionFact::ReasoningEffort(s) => {
            state.modes.effort = Some(s);
            false
        },
        SessionFact::Title(s) => {
            state.title = Some(s);
            true
        },
        SessionFact::Model(s) => {
            state.model = Some(s);
            false
        },
    }
}

/// A parked tab's run bookkeeping.
#[derive(Clone, Copy, Debug, PartialEq, Eq, Structural)]
pub struct SlotRun {
    pub running: bool,
    /// It finished a turn while parked and the user has not looked yet.
    pub completed_unseen: bool,
    pub prompt_pending: bool,
    /// The next subagent start opens a new batch.
    pub next_batch: bool,
}

/// A lifecycle update for a parked tab.
#[derive(Clone, Copy, Debug, PartialEq, Eq, Structural)]
pub enum SlotLifecycle {
    Status { running: bool },
    TurnStart,
    TurnEnd,
}

pub open spec fn slot_run_after(s: SlotRun, ev: SlotLifecycle) -> SlotRun {
    match ev {
        SlotLifecycle::Status { running } => SlotRun {
            running,
            completed_unseen: s.completed_unseen || (s.running && !running),
            prompt_pending: if running { s.prompt_pending } else { false },
            next_batch: s.next_batch,
        },
        SlotLifecycle::TurnStart => SlotRun {
            running: true,
            completed_unseen: s.completed_unseen,
            prompt_pending: s.prompt_pending,
            next_batch: true,
        },
        SlotLifecycle::TurnEnd => SlotRun {
            running: s.running,
            completed_unseen: s.completed_unseen || s.running,
            prompt_pending: false,
            next_batch: s.next_batch,
        },
    }
}

/// A parked tab after a lifecycle update: a turn that ends (or a status
/// that stops) while it was running marks it finished unseen.
pub fn slot_lifecycle(s: SlotRun, ev: SlotLifecycle) -> (r: SlotRun)
    ensures
        r == slot_run_after(s, ev),
{
    match ev {
        SlotLifecycle::Status { running } => SlotRun {
            running,
            completed_unseen: s.completed_unseen || (s.running && !running),
            prompt_pending: if running { s.prompt_pending } else { false },
            next_batch: s.next_batch,
        },
        SlotLifecycle::TurnStart => SlotRun {
            running: true,
            completed_unseen: s.completed_unseen,
            prompt_pending: s.prompt_pending,
            next_batch: true,
        },
        SlotLifecycle::TurnEnd => SlotRun {
            running: s.running,
            completed_unseen: s.completed_unseen || s.running,
            prompt_pending: false,
            next_batch: s.next_batch,
        },
    }
}

/// Whether `id` is in the batch list.
pub open spec fn listed(batch: Seq<String>, id: Seq<char>) -> bool {
    exists|i: int| 0 <= i < batch.len() && #[trigger] batch[i]@ == id
}

/// Register a started subagent in the current batch: a pending new batch
/// first forgets the previous one; the child is added once.
pub fn enter_batch(batch: &mut Vec<String>, next_batch: &mut bool, child: &str)
    ensures
        !*final(next_batch),
        listed(final(batch)@, child@),
        forall|s: Seq<char>| #[trigger] listed(final(batch)@, s) <==> (s == child@ || (!*old(next_batch) && listed(
            old(batch)@,
            s,
        ))),
{
    let ghost old_next = *next_batch;
    let ghost old_batch = batch@;
    if *next_batch {
        batch.clear();
        *next_batch = false;
    }
    let ghost before = batch@;
    assert forall|s: Seq<char>| #[trigger] listed(before, s) <==> (!old_next && listed(old_batch, s)) by {
        if old_next {
            assert(before.len() == 0);
        }
    }
    let mut i: usize = 0;
    while i < batch.len()
        invariant
            i <= batch.len(),
            !*next_batch,
            old_next == *old(next_batch),
            old_batch == old(batch)@,
            forall|s: Seq<char>| #[trigger] listed(before, s) <==> (!old_next && listed(old_batch, s)),
            batch@ == before,
            forall|j: int| 0 <= j < i ==> #[trigger] batch@[j]@ != child@,
        decreases batch.len() - i,
    {
        if str_eq(batch[i].as_str(), child) {
            assert(batch@[i as int]@ == child@);
            assert forall|s: Seq<char>| #[trigger] listed(batch@, s) <==> (s == child@ || listed(before, s)) by {}
            return;
        }
        i = i + 1;
    }
    batch.push(child.to_owned());
    proof {
        assert(batch@.last()@ == child@);
        assert forall|s: Seq<char>| #[trigger] listed(batch@, s) <==> (s == child@ || listed(before, s)) by {
            if listed(before, s) {
                let k = choose|k: int| 0 <= k < before.len() && #[trigger] before[k]@ == s;
                assert(batch@[k] == before[k]);
            }
            if listed(batch@, s) && s != child@ {
                let k = choose|k: int| 0 <= k < batch@.len() && #[trigger] batch@[k]@ == s;
                assert(k < before.len());
                assert(before[k] == batch@[k]);
            }
            if s == child@ {
                assert(batch@[batch@.len() - 1]@ == s);
            }
        }
    }
}

/// Whether the agent rail closes after a subagent ends: it was open and no
/// subagent is still running or failed.
pub open spec fn rail_closes<T>(selection_open: bool, views: Seq<SubagentView<T>>) -> bool {
    selection_open && !(exists|i: int| 0 <= i < views.len() && ((#[trigger] views[i]).running || views[i].failed))
}

/// Whether the agent rail closes after a subagent ends.
pub fn rail_should_close<T>(selection_open: bool, views: &Vec<SubagentView<T>>) -> (r: bool)
    ensures
        r == rail_closes(selection_open, views@),
{
    if !selection_open {
        return false;
    }
    let mut i: usize = 0;
    while i < views.len()
        invariant
            i <= views.len(),
            selection_open,
            forall|j: int| 0 <= j < i ==> !(#[trigger] views@[j]).running && !views@[j].failed,
        decreases views.len() - i,
    {
        if views[i].running || views[i].failed {
            assert(views@[i as int].running || views@[i as int].failed);
            return false;
        }
        i = i + 1;
    }
    true
}

/// An update for the live session never lands anywhere else, and an update
/// for a session this client does not know is dropped.
pub proof fn law_foreign_updates_are_dropped(live_id: Seq<char>, live_views: Seq<Seq<char>>, parked: Seq<SlotAgents>, session: Seq<char>)
    requires
        session != live_id,
        !live_views.contains(session),
        slot_owner(parked, session) is None,
    ensures
        session_dest_of(live_id, live_views, parked, session) == UiDest::Drop,
        session_dest_of(live_id, live_views, parked, live_id) == UiDest::Live,
{
    lemma_index_in_range(live_views, session);
}

} // verus!
