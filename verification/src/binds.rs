//! Which tab a session bind belongs to. Tabs ask the agent for sessions
//! (`session/new`, resume, load) and the answers arrive in request order,
//! so the requests wait in a first-in-first-out list; the one bind nobody
//! asked for is the startup (or reconnect) session, which must never take
//! the head of that list. A tab closed before its answer arrives keeps its
//! place in the list, and its late session is forgotten.
use vstd::prelude::*;
use crate::text::str_eq;

verus! {

/// A request for a session, made by the tab with this id.
#[derive(Debug)]
pub struct AwaitingBind {
    pub id: String,
    /// The tab is still open.
    pub open: bool,
}

/// A parked tab's id and whether its session is bound.
pub struct TabBind {
    pub id: String,
    pub bound: bool,
}

pub open spec fn req_view(a: AwaitingBind) -> (Seq<char>, bool) {
    (a.id@, a.open)
}

pub open spec fn reqs(v: Seq<AwaitingBind>) -> Seq<(Seq<char>, bool)> {
    v.map_values(|a: AwaitingBind| req_view(a))
}

/// Whether a request from tab `id` is waiting.
pub open spec fn awaited(awaiting: Seq<(Seq<char>, bool)>, id: Seq<char>) -> bool {
    exists|i: int| 0 <= i < awaiting.len() && (#[trigger] awaiting[i]).0 == id
}

/// Where a bind lands.
#[derive(Clone, Copy, Debug, PartialEq, Eq, Structural)]
pub enum BindTarget {
    /// The startup bind, onto the parked tab at this position (unbound and
    /// awaiting nothing).
    StartupParked(usize),
    /// The startup bind, onto the viewed tab.
    StartupLive,
    /// The startup bind, into a fresh parked tab.
    StartupNewTab,
    /// The requesting tab was closed: the session is forgotten.
    ClosedTab,
    /// The viewed tab asked for it.
    AwaitedLive,
    /// The parked tab at this position asked for it.
    AwaitedParked(usize),
    /// The requesting tab is gone.
    AwaitedGone,
    /// A load for the parked tab at this position resolved.
    LoadedParked(usize),
    /// A reconnect rebinds the viewed tab.
    ReboundLive,
}

/// The first parked tab that is unbound and awaits nothing.
pub open spec fn idle_unbound(parked: Seq<TabBind>, awaiting: Seq<(Seq<char>, bool)>) -> Option<int>
    decreases parked.len(),
{
    if parked.len() == 0 {
        None
    } else if !parked[0].bound && !awaited(awaiting, parked[0].id@) {
        Some(0)
    } else {
        match idle_unbound(parked.drop_first(), awaiting) {
            Some(j) => Some(j + 1),
            None => None,
        }
    }
}

/// The first parked tab with id `id`.
pub open spec fn parked_index(parked: Seq<TabBind>, id: Seq<char>) -> Option<int>
    decreases parked.len(),
{
    if parked.len() == 0 {
        None
    } else if parked[0].id@ == id {
        Some(0)
    } else {
        match parked_index(parked.drop_first(), id) {
            Some(j) => Some(j + 1),
            None => None,
        }
    }
}

/// Where a bind of `session` lands, and whether it consumes the head of
/// the request list: while the startup bind is outstanding and requests
/// wait, the bind is the startup one; else the head request owns it; with
/// no request, a parked tab's load or a reconnect of the viewed tab.
pub open spec fn bind_target_of(
    startup_bound: bool,
    awaiting: Seq<(Seq<char>, bool)>,
    live_id: Seq<char>,
    live_bound: bool,
    parked: Seq<TabBind>,
    session: Seq<char>,
) -> (BindTarget, bool) {
    if !startup_bound && awaiting.len() > 0 {
        match idle_unbound(parked, awaiting) {
            Some(j) => (BindTarget::StartupParked(j as usize), false),
            None => if !live_bound && !awaited(awaiting, live_id) {
                (BindTarget::StartupLive, false)
            } else {
                (BindTarget::StartupNewTab, false)
            },
        }
    } else if awaiting.len() > 0 {
        let head = awaiting[0];
        if !head.1 {
            (BindTarget::ClosedTab, true)
        } else if live_id == head.0 {
            (BindTarget::AwaitedLive, true)
        } else {
            match parked_index(parked, head.0) {
                Some(j) => (BindTarget::AwaitedParked(j as usize), true),
                None => (BindTarget::AwaitedGone, true),
            }
        }
    } else {
        match parked_index(parked, session) {
            Some(j) => (BindTarget::LoadedParked(j as usize), false),
            None => (BindTarget::ReboundLive, false),
        }
    }
}

fn is_awaited(awaiting: &Vec<AwaitingBind>, id: &str) -> (r: bool)
    ensures
        r == awaited(reqs(awaiting@), id@),
{
    let ghost v = reqs(awaiting@);
    let mut i: usize = 0;
    while i < awaiting.len()
        invariant
            i <= awaiting.len(),
            v == reqs(awaiting@),
            forall|j: int| 0 <= j < i ==> (#[trigger] v[j]).0 != id@,
        decreases awaiting.len() - i,
    {
        if str_eq(awaiting[i].id.as_str(), id) {
            assert(v[i as int].0 == id@);
            return true;
        }
        i = i + 1;
    }
    false
}

fn find_idle_unbound(parked: &Vec<TabBind>, awaiting: &Vec<AwaitingBind>) -> (r: Option<usize>)
    ensures
        match r {
            Some(j) => idle_unbound(parked@, reqs(awaiting@)) == Some(j as int),
            None => idle_unbound(parked@, reqs(awaiting@)) is None,
        },
{
    let mut j: usize = 0;
    assert(parked@.skip(0) =~= parked@);
    while j < parked.len()
        invariant
            j <= parked.len(),
            idle_unbound(parked@, reqs(awaiting@)) == match idle_unbound(parked@.skip(j as int), reqs(awaiting@)) {
                Some(a) => Some(a + j),
                None => None,
            },
        decreases parked.len() - j,
    {
        let ghost rest = parked@.skip(j as int);
        assert(rest[0] == parked@[j as int]);
        assert(rest.drop_first() =~= parked@.skip(j + 1));
        if !parked[j].bound && !is_awaited(awaiting, parked[j].id.as_str()) {
            return Some(j);
        }
        j = j + 1;
    }
    None
}

fn find_parked(parked: &Vec<TabBind>, id: &str) -> (r: Option<usize>)
    ensures
        match r {
            Some(j) => parked_index(parked@, id@) == Some(j as int),
            None => parked_index(parked@, id@) is None,
        },
{
    let mut j: usize = 0;
    assert(parked@.skip(0) =~= parked@);
    while j < parked.len()
        invariant
            j <= parked.len(),
            parked_index(parked@, id@) == match parked_index(parked@.skip(j as int), id@) {
                Some(a) => Some(a + j),
                None => None,
            },
        decreases parked.len() - j,
    {
        let ghost rest = parked@.skip(j as int);
        assert(rest[0] == parked@[j as int]);
        assert(rest.drop_first() =~= parked@.skip(j + 1));
        if str_eq(parked[j].id.as_str(), id) {
            return Some(j);
        }
        j = j + 1;
    }
    None
}

/// Where a bind of `session` lands; a bind that answers a request takes
/// that request off the head of the list.
pub fn bind_target(
    startup_bound: bool,
    awaiting: &mut Vec<AwaitingBind>,
    live_id: &str,
    live_bound: bool,
    parked: &Vec<TabBind>,
    session: &str,
) -> (r: (BindTarget, Option<AwaitingBind>))
    ensures
        ({
            let (target, pops) = bind_target_of(startup_bound, reqs(old(awaiting)@), live_id@, live_bound, parked@, session@);
            &&& r.0 == target
            &&& pops ==> (r.1 matches Some(a) && req_view(a) == reqs(old(awaiting)@)[0]
                && reqs(final(awaiting)@) == reqs(old(awaiting)@).drop_first())
            &&& !pops ==> r.1 is None && final(awaiting)@ == old(awaiting)@
        }),
{
    if !startup_bound && awaiting.len() > 0 {
        let target = match find_idle_unbound(parked, awaiting) {
            Some(j) => BindTarget::StartupParked(j),
            None => if !live_bound && !is_awaited(awaiting, live_id) {
                BindTarget::StartupLive
            } else {
                BindTarget::StartupNewTab
            },
        };
        return (target, None);
    }
    if awaiting.len() > 0 {
        let head = awaiting.remove(0);
        proof {
            assert(reqs(awaiting@) =~= reqs(old(awaiting)@).drop_first());
            assert(req_view(head) == reqs(old(awaiting)@)[0]);
        }
        let target = if !head.open {
            BindTarget::ClosedTab
        } else if str_eq(live_id, head.id.as_str()) {
            BindTarget::AwaitedLive
        } else {
            match find_parked(parked, head.id.as_str()) {
                Some(j) => BindTarget::AwaitedParked(j),
                None => BindTarget::AwaitedGone,
            }
        };
        return (target, Some(head));
    }
    let target = match find_parked(parked, session) {
        Some(j) => BindTarget::LoadedParked(j),
        None => BindTarget::ReboundLive,
    };
    (target, None)
}

/// The request list without the requests of tab `id`.
pub open spec fn without(awaiting: Seq<(Seq<char>, bool)>, id: Seq<char>) -> Seq<(Seq<char>, bool)>
    decreases awaiting.len(),
{
    if awaiting.len() == 0 {
        awaiting
    } else {
        let rest = without(awaiting.drop_last(), id);
        if awaiting.last().0 == id { rest } else { rest.push(awaiting.last()) }
    }
}

/// Drop the requests of tab `id`, keeping the others in order.
pub fn retain_others(awaiting: &mut Vec<AwaitingBind>, id: &str)
    ensures
        reqs(final(awaiting)@) == without(reqs(old(awaiting)@), id@),
{
    let mut kept: Vec<AwaitingBind> = Vec::new();
    let mut i: usize = 0;
    let ghost o = reqs(awaiting@);
    while i < awaiting.len()
        invariant
            i <= awaiting.len(),
            o == reqs(awaiting@),
            awaiting@ == old(awaiting)@,
            reqs(kept@) == without(o.take(i as int), id@),
        decreases awaiting.len() - i,
    {
        let ghost before = reqs(kept@);
        assert(o.take(i + 1).drop_last() =~= o.take(i as int));
        assert(o.take(i + 1).last() == o[i as int]);
        if !str_eq(awaiting[i].id.as_str(), id) {
            let e = AwaitingBind { id: awaiting[i].id.clone(), open: awaiting[i].open };
            kept.push(e);
            assert(reqs(kept@) =~= before.push(o[i as int]));
        }
        i = i + 1;
    }
    assert(o.take(awaiting.len() as int) =~= o);
    *awaiting = kept;
}

/// Queue a request from tab `id` behind the others.
pub fn request_bind(awaiting: &mut Vec<AwaitingBind>, id: &str)
    ensures
        reqs(final(awaiting)@) == reqs(old(awaiting)@).push((id@, true)),
{
    awaiting.push(AwaitingBind { id: id.to_owned(), open: true });
    assert(reqs(awaiting@) =~= reqs(old(awaiting)@).push((id@, true)));
}

/// Tab `id` closed: each of its requests stays in place but no longer
/// counts as open.
pub fn close_requests(awaiting: &mut Vec<AwaitingBind>, id: &str)
    ensures
        reqs(final(awaiting)@).len() == reqs(old(awaiting)@).len(),
        forall|i: int| 0 <= i < old(awaiting)@.len() ==> {
            let o = #[trigger] reqs(old(awaiting)@)[i];
            reqs(final(awaiting)@)[i] == if o.0 == id@ { (o.0, false) } else { o }
        },
{
    let ghost o = reqs(awaiting@);
    let mut i: usize = 0;
    while i < awaiting.len()
        invariant
            i <= awaiting.len(),
            o == reqs(old(awaiting)@),
            reqs(awaiting@).len() == o.len(),
            forall|j: int| 0 <= j < i ==> #[trigger] reqs(awaiting@)[j] == (if o[j].0 == id@ { (o[j].0, false) } else { o[j] }),
            forall|j: int| i <= j < o.len() ==> #[trigger] reqs(awaiting@)[j] == o[j],
        decreases awaiting.len() - i,
    {
        let ghost before = reqs(awaiting@);
        assert(before[i as int] == o[i as int]);
        if str_eq(awaiting[i].id.as_str(), id) {
            let e = AwaitingBind { id: awaiting[i].id.clone(), open: false };
            awaiting.set(i, e);
            assert(reqs(awaiting@) =~= before.update(i as int, (o[i as int].0, false)));
        }
        i = i + 1;
    }
}

/// A bind for tab `previous` resolved to a new session id: its requests
/// leave the list, and when that tab still exists its claim goes to the
/// head so the new id lands on it. Returns whether the tab exists.
pub fn rebind_request(awaiting: &mut Vec<AwaitingBind>, previous: &str, tab_exists: bool) -> (r: bool)
    ensures
        r == tab_exists,
        tab_exists ==> reqs(final(awaiting)@) == seq![(previous@, true)] + without(reqs(old(awaiting)@), previous@),
        !tab_exists ==> reqs(final(awaiting)@) == without(reqs(old(awaiting)@), previous@),
{
    retain_others(awaiting, previous);
    if tab_exists {
        let ghost before = reqs(awaiting@);
        awaiting.insert(0, AwaitingBind { id: previous.to_owned(), open: true });
        assert(reqs(awaiting@) =~= seq![(previous@, true)] + before);
    }
    tab_exists
}

/// Binds answer requests in order: with the startup bind settled, the
/// oldest open request's tab receives the next bind, whichever tab is on
/// screen.
pub proof fn law_binds_answer_the_oldest_request(
    awaiting: Seq<(Seq<char>, bool)>,
    live_id: Seq<char>,
    live_bound: bool,
    parked: Seq<TabBind>,
    session: Seq<char>,
)
    requires
        awaiting.len() > 0,
        awaiting[0].1,
        parked.len() <= usize::MAX,
    ensures
        ({
            let (t, pops) = bind_target_of(true, awaiting, live_id, live_bound, parked, session);
            &&& pops
            &&& live_id == awaiting[0].0 ==> t == BindTarget::AwaitedLive
            &&& live_id != awaiting[0].0 ==> (t == BindTarget::AwaitedGone || (t matches BindTarget::AwaitedParked(j)
                && 0 <= j < parked.len() && parked[j as int].id@ == awaiting[0].0))
        }),
{
    lemma_parked_index(parked, awaiting[0].0);
}

/// A closed tab's late session never binds onto another tab, and the
/// startup bind never consumes a waiting request.
pub proof fn law_closed_and_startup_binds(
    awaiting: Seq<(Seq<char>, bool)>,
    live_id: Seq<char>,
    live_bound: bool,
    parked: Seq<TabBind>,
    session: Seq<char>,
)
    requires
        awaiting.len() > 0,
    ensures
        !awaiting[0].1 ==> bind_target_of(true, awaiting, live_id, live_bound, parked, session) == (BindTarget::ClosedTab, true),
        !bind_target_of(false, awaiting, live_id, live_bound, parked, session).1,
{
}

proof fn lemma_parked_index(parked: Seq<TabBind>, id: Seq<char>)
    ensures
        parked_index(parked, id) matches Some(j) ==> 0 <= j < parked.len() && parked[j].id@ == id,
    decreases parked.len(),
{
    if parked.len() > 0 && parked[0].id@ != id {
        lemma_parked_index(parked.drop_first(), id);
    }
}

} // verus!
