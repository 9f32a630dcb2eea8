//! Which sessions wait for their turn to end. An agent announces that a
//! session went idle both when a turn ends and, periodically, as a
//! heartbeat; an idle answers a turn only when a turn is waiting for one.
//! A turn is armed before its prompt goes out (a fast turn may end before
//! the prompt is acknowledged) and the idle that settles it disarms it.
use vstd::prelude::*;
use crate::text::str_eq;

verus! {

/// The armed turns: per session, what an idle delivers the outcome to.
pub struct TurnBoard<T> {
    pub stops: Vec<(String, T)>,
}

/// The sessions with an armed turn, in arming order.
pub open spec fn armed<T>(stops: Seq<(String, T)>) -> Seq<Seq<char>> {
    stops.map_values(|e: (String, T)| e.0@)
}

/// No session is armed twice.
pub open spec fn distinct_sessions(ids: Seq<Seq<char>>) -> bool {
    forall|i: int, j: int| 0 <= i < j < ids.len() ==> ids[i] != ids[j]
}

/// The board without session `session`.
pub open spec fn without_session<T>(stops: Seq<(String, T)>, session: Seq<char>) -> Seq<(String, T)>
    decreases stops.len(),
{
    if stops.len() == 0 {
        stops
    } else {
        let rest = without_session(stops.drop_last(), session);
        if stops.last().0@ == session { rest } else { rest.push(stops.last()) }
    }
}

/// Whether session `session` has an armed turn.
pub open spec fn is_armed<T>(stops: Seq<(String, T)>, session: Seq<char>) -> bool {
    armed(stops).contains(session)
}

proof fn lemma_push_contains(v: Seq<Seq<char>>, x: Seq<char>, s: Seq<char>)
    ensures
        v.push(x).contains(s) == (v.contains(s) || x == s),
{
    if v.push(x).contains(s) {
        let k = choose|k: int| 0 <= k < v.push(x).len() && v.push(x)[k] == s;
        if k < v.len() {
            assert(v[k] == s);
        }
    }
    if v.contains(s) {
        let k = choose|k: int| 0 <= k < v.len() && v[k] == s;
        assert(v.push(x)[k] == s);
    }
    if x == s {
        assert(v.push(x)[v.len() as int] == s);
    }
}

proof fn lemma_without<T>(stops: Seq<(String, T)>, session: Seq<char>)
    ensures
        !is_armed(without_session(stops, session), session),
        forall|s: Seq<char>| s != session ==> (is_armed(without_session(stops, session), s) == is_armed(stops, s)),
        distinct_sessions(armed(stops)) ==> distinct_sessions(armed(without_session(stops, session))),
    decreases stops.len(),
{
    if stops.len() == 0 {
        assert(armed(stops).len() == 0);
    } else {
        let d = stops.drop_last();
        lemma_without(d, session);
        let rest = without_session(d, session);
        let last = stops.last();
        assert(stops =~= d.push(last));
        assert(armed(stops) =~= armed(d).push(last.0@));
        assert forall|s: Seq<char>| #[trigger] is_armed(stops, s) == (is_armed(d, s) || last.0@ == s) by {
            lemma_push_contains(armed(d), last.0@, s);
        }
        if last.0@ != session {
            let w = rest.push(last);
            assert(armed(w) =~= armed(rest).push(last.0@));
            assert forall|s: Seq<char>| #[trigger] is_armed(w, s) == (is_armed(rest, s) || last.0@ == s) by {
                lemma_push_contains(armed(rest), last.0@, s);
            }
            if distinct_sessions(armed(stops)) {
                assert(distinct_sessions(armed(d))) by {
                    assert forall|i: int, j: int| 0 <= i < j < armed(d).len() implies armed(d)[i] != armed(d)[j] by {
                        assert(armed(stops)[i] == armed(d)[i]);
                        assert(armed(stops)[j] == armed(d)[j]);
                    }
                }
                assert(!is_armed(d, last.0@)) by {
                    if is_armed(d, last.0@) {
                        let m = choose|m: int| 0 <= m < armed(d).len() && armed(d)[m] == last.0@;
                        assert(armed(stops)[m] == last.0@);
                        assert(armed(stops)[armed(stops).len() - 1] == last.0@);
                    }
                }
                assert forall|i: int, j: int| 0 <= i < j < armed(w).len() implies armed(w)[i] != armed(w)[j] by {
                    if j == armed(w).len() - 1 {
                        assert(armed(w)[j] == last.0@);
                        assert(armed(w)[i] == armed(rest)[i]);
                        assert(is_armed(rest, armed(rest)[i]));
                    } else {
                        assert(armed(w)[i] == armed(rest)[i]);
                        assert(armed(w)[j] == armed(rest)[j]);
                    }
                }
            }
        } else {
            if distinct_sessions(armed(stops)) {
                assert(distinct_sessions(armed(d))) by {
                    assert forall|i: int, j: int| 0 <= i < j < armed(d).len() implies armed(d)[i] != armed(d)[j] by {
                        assert(armed(stops)[i] == armed(d)[i]);
                        assert(armed(stops)[j] == armed(d)[j]);
                    }
                }
            }
        }
    }
}

/// Where session `session` stands on the board.
fn position<T>(stops: &Vec<(String, T)>, session: &str) -> (r: Option<usize>)
    ensures
        match r {
            Some(i) => i < stops.len() && stops@[i as int].0@ == session@,
            None => !is_armed(stops@, session@),
        },
{
    let mut i: usize = 0;
    while i < stops.len()
        invariant
            i <= stops.len(),
            forall|j: int| 0 <= j < i ==> (#[trigger] stops@[j]).0@ != session@,
        decreases stops.len() - i,
    {
        if str_eq(stops[i].0.as_str(), session) {
            return Some(i);
        }
        i = i + 1;
    }
    proof {
        if is_armed(stops@, session@) {
            let k = choose|k: int| 0 <= k < armed(stops@).len() && armed(stops@)[k] == session@;
            assert(stops@[k].0@ == session@);
        }
    }
    None
}

impl<T> TurnBoard<T> {
    /// A board with nothing armed.
    pub fn new() -> (r: TurnBoard<T>)
        ensures
            armed(r.stops@).len() == 0,
    {
        TurnBoard { stops: Vec::new() }
    }

    /// Arm `session`'s turn with `stop`, replacing any earlier arming.
    pub fn arm(&mut self, session: &str, stop: T)
        requires
            distinct_sessions(armed(old(self).stops@)),
        ensures
            distinct_sessions(armed(final(self).stops@)),
            is_armed(final(self).stops@, session@),
            forall|s: Seq<char>| s != session@ ==> (is_armed(final(self).stops@, s) == is_armed(old(self).stops@, s)),
            forall|i: int| 0 <= i < final(self).stops.len() && (#[trigger] final(self).stops@[i]).0@ == session@
                ==> final(self).stops@[i].1 == stop,
    {
        self.disarm(session);
        let ghost before = self.stops@;
        self.stops.push((session.to_owned(), stop));
        proof {
            assert(armed(self.stops@) =~= armed(before).push(session@));
            assert(armed(self.stops@)[armed(self.stops@).len() - 1] == session@);
            assert forall|s: Seq<char>| s != session@ implies (is_armed(self.stops@, s) == is_armed(before, s)) by {
                if is_armed(self.stops@, s) {
                    let k = choose|k: int| 0 <= k < armed(self.stops@).len() && armed(self.stops@)[k] == s;
                    assert(k < before.len());
                    assert(armed(before)[k] == s);
                }
                if is_armed(before, s) {
                    let k = choose|k: int| 0 <= k < armed(before).len() && armed(before)[k] == s;
                    assert(armed(self.stops@)[k] == s);
                }
            }
            assert forall|i: int, j: int| 0 <= i < j < armed(self.stops@).len() implies armed(self.stops@)[i] != armed(
                self.stops@,
            )[j] by {
                if j == armed(self.stops@).len() - 1 {
                    assert(armed(before)[i] == armed(self.stops@)[i]);
                } else {
                    assert(armed(before)[i] == armed(self.stops@)[i]);
                    assert(armed(before)[j] == armed(self.stops@)[j]);
                }
            }
            assert forall|i: int| 0 <= i < self.stops.len() && (#[trigger] self.stops@[i]).0@ == session@ implies self.stops@[i].1
                == stop by {
                if i < before.len() {
                    assert(armed(before)[i] == session@);
                }
            }
        }
    }

    /// Forget `session`'s turn, if one is armed.
    pub fn disarm(&mut self, session: &str)
        requires
            distinct_sessions(armed(old(self).stops@)),
        ensures
            final(self).stops@ == without_session(old(self).stops@, session@),
            distinct_sessions(armed(final(self).stops@)),
            !is_armed(final(self).stops@, session@),
            forall|s: Seq<char>| s != session@ ==> (is_armed(final(self).stops@, s) == is_armed(old(self).stops@, s)),
    {
        let mut kept: Vec<(String, T)> = Vec::new();
        let ghost o = self.stops@;
        let mut rest: Vec<(String, T)> = Vec::new();
        std::mem::swap(&mut rest, &mut self.stops);
        assert(rest@ == o);
        assert(o.len() == rest.len());
        let mut i: usize = 0;
        while rest.len() > 0
            invariant
                i + rest.len() == o.len(),
                o.len() <= usize::MAX,
                rest@ == o.skip(i as int),
                kept@ == without_session(o.take(i as int), session@),
            decreases rest.len(),
        {
            let e = rest.remove(0);
            proof {
                assert(o.skip(i as int)[0] == e);
                assert(rest@ =~= o.skip(i + 1));
                assert(o.take(i + 1).drop_last() =~= o.take(i as int));
                assert(o.take(i + 1).last() == o[i as int]);
            }
            if !str_eq(e.0.as_str(), session) {
                kept.push(e);
            }
            i = i + 1;
        }
        assert(o.take(o.len() as int) =~= o);
        self.stops = kept;
        proof {
            lemma_without(o, session@);
        }
    }

    /// An idle for `session`: when a turn waits for it, the turn is
    /// disarmed and its stop handed back; otherwise (a heartbeat) nothing
    /// changes.
    pub fn settle(&mut self, session: &str) -> (r: Option<T>)
        requires
            distinct_sessions(armed(old(self).stops@)),
        ensures
            distinct_sessions(armed(final(self).stops@)),
            !is_armed(final(self).stops@, session@),
            forall|s: Seq<char>| s != session@ ==> (is_armed(final(self).stops@, s) == is_armed(old(self).stops@, s)),
            is_armed(old(self).stops@, session@) ==> (r matches Some(t) && exists|i: int|
                0 <= i < old(self).stops.len() && (#[trigger] old(self).stops@[i]).0@ == session@ && old(self).stops@[i].1
                    == t),
            !is_armed(old(self).stops@, session@) ==> r is None && final(self).stops@ == old(self).stops@,
    {
        match position(&self.stops, session) {
            Some(i) => {
                let ghost o = self.stops@;
                let e = self.stops.remove(i);
                assert(o[i as int] == e);
                let ghost after = self.stops@;
                assert(after =~= o.remove(i as int));
                proof {
                    assert(armed(after) =~= armed(o).remove(i as int));
                    assert(armed(o)[i as int] == session@);
                    assert(!is_armed(after, session@)) by {
                        if is_armed(after, session@) {
                            let k = choose|k: int| 0 <= k < armed(after).len() && armed(after)[k] == session@;
                            let ok = if k < i { k } else { k + 1 };
                            assert(armed(o)[ok] == session@);
                        }
                    }
                    assert forall|s: Seq<char>| s != session@ implies (is_armed(after, s) == is_armed(o, s)) by {
                        if is_armed(after, s) {
                            let k = choose|k: int| 0 <= k < armed(after).len() && armed(after)[k] == s;
                            let ok = if k < i { k } else { k + 1 };
                            assert(armed(o)[ok] == s);
                        }
                        if is_armed(o, s) {
                            let k = choose|k: int| 0 <= k < armed(o).len() && armed(o)[k] == s;
                            assert(k != i);
                            let ak = if k < i { k } else { k - 1 };
                            assert(armed(after)[ak] == s);
                        }
                    }
                    assert forall|a: int, b: int| 0 <= a < b < armed(after).len() implies armed(after)[a] != armed(
                        after,
                    )[b] by {
                        let oa = if a < i { a } else { a + 1 };
                        let ob = if b < i { b } else { b + 1 };
                        assert(armed(after)[a] == armed(o)[oa]);
                        assert(armed(after)[b] == armed(o)[ob]);
                    }
                }
                Some(e.1)
            },
            None => None,
        }
    }
}

/// An idle settles a turn at most once: right after a turn is settled, a
/// second idle for the same session (a heartbeat) finds nothing armed.
pub proof fn law_idle_settles_once<T>(stops: Seq<(String, T)>, session: Seq<char>)
    ensures
        !is_armed(without_session(stops, session), session),
{
    lemma_without(stops, session);
}

/// The idle that settles an armed turn hands over the stop that arming
/// stored: `arm` leaves every entry of the session holding its stop, and
/// `settle` returns the stop of one of the session's entries.
pub proof fn law_settle_delivers_the_armed_stop<T>(stops: Seq<(String, T)>, session: Seq<char>, stop: T, settled: T)
    requires
        forall|i: int| 0 <= i < stops.len() && (#[trigger] stops[i]).0@ == session ==> stops[i].1 == stop,
        exists|i: int| 0 <= i < stops.len() && (#[trigger] stops[i]).0@ == session && stops[i].1 == settled,
    ensures
        settled == stop,
{
}

} // verus!
