//! Each session's prompt lane on the connection: at most one turn in flight,
//! later prompts waiting behind it in arrival order, and a turn's finish
//! accepted only from the turn that is in flight (by its generation), so a
//! late finish of a cancelled or replaced turn frees nothing.
use vstd::prelude::*;

verus! {

/// A lane as the contracts see it: the generation in flight and the
/// prompts waiting, oldest first.
pub struct LaneState<C> {
    pub inflight: Option<u64>,
    pub waiting: Seq<C>,
    pub aborted: bool,
}

/// The lane after a prompt arrives, and the prompt to begin now if any: it
/// begins at once when nothing is in flight and sign-in does not hold the
/// session, else it waits at the back.
pub open spec fn offered<C>(s: LaneState<C>, cmd: C, stalled: bool) -> (LaneState<C>, Option<C>) {
    if s.inflight is Some || stalled {
        (LaneState { waiting: s.waiting.push(cmd), ..s }, None)
    } else {
        (s, Some(cmd))
    }
}

/// The lane after a drain, and the prompt to begin: the oldest waiting one,
/// when nothing is in flight and sign-in does not hold the session.
pub open spec fn drained<C>(s: LaneState<C>, stalled: bool) -> (LaneState<C>, Option<C>) {
    if s.inflight is None && !stalled && s.waiting.len() > 0 {
        (LaneState { waiting: s.waiting.drop_first(), ..s }, Some(s.waiting[0]))
    } else {
        (s, None)
    }
}

/// The lane after a turn began (`Some(gen)`) or failed to begin (`None`).
pub open spec fn begun<C>(s: LaneState<C>, gen: Option<u64>) -> LaneState<C> {
    LaneState { inflight: gen, ..s }
}

/// The lane after an interrupt: the turn in flight, when it finishes,
/// counts as interrupted.
pub open spec fn aborted<C>(s: LaneState<C>) -> LaneState<C> {
    LaneState { aborted: true, ..s }
}

/// The lane after the finish of turn `gen` arrives, and whether it counted
/// (with whether the turn had been interrupted): only the turn in flight
/// frees the lane, and its finish consumes the interrupt mark.
pub open spec fn finished<C>(s: LaneState<C>, gen: u64) -> (LaneState<C>, Option<bool>) {
    if s.inflight == Some(gen) {
        (LaneState { inflight: None, waiting: s.waiting, aborted: false }, Some(s.aborted))
    } else {
        (s, None)
    }
}

/// Whether a finished turn ends as interrupted: it was interrupted and the
/// agent did not stop it normally, or the agent reported it cancelled.
pub open spec fn ends_interrupted(aborted: bool, stopped: bool, cancelled: bool) -> bool {
    aborted && (!stopped || cancelled)
}

/// Whether a finished turn ends as interrupted.
pub fn turn_interrupted(aborted: bool, stopped: bool, cancelled: bool) -> (r: bool)
    ensures
        r == ends_interrupted(aborted, stopped, cancelled),
{
    aborted && (!stopped || cancelled)
}

/// One session's prompt lane.
pub struct PromptLane<C> {
    pub inflight: Option<u64>,
    pub waiting: Vec<C>,
    pub aborted: bool,
}

impl<C> View for PromptLane<C> {
    type V = LaneState<C>;

    open spec fn view(&self) -> LaneState<C> {
        LaneState { inflight: self.inflight, waiting: self.waiting@, aborted: self.aborted }
    }
}

impl<C> PromptLane<C> {
    /// An idle lane with nothing waiting.
    pub fn new() -> (r: PromptLane<C>)
        ensures
            r@.inflight is None,
            r@.waiting.len() == 0,
            !r@.aborted,
    {
        PromptLane { inflight: None, waiting: Vec::new(), aborted: false }
    }

    /// A prompt-like command for this session arrives.
    pub fn offer(&mut self, cmd: C, stalled: bool) -> (r: Option<C>)
        ensures
            (final(self)@, r) == offered(old(self)@, cmd, stalled),
    {
        if self.inflight.is_some() || stalled {
            self.waiting.push(cmd);
            None
        } else {
            Some(cmd)
        }
    }

    /// The prompt to begin when the lane may move on.
    pub fn next_ready(&mut self, stalled: bool) -> (r: Option<C>)
        ensures
            (final(self)@, r) == drained(old(self)@, stalled),
    {
        if self.inflight.is_none() && !stalled && self.waiting.len() > 0 {
            let cmd = self.waiting.remove(0);
            Some(cmd)
        } else {
            None
        }
    }

    /// Record the turn that began (its generation), or that none did.
    pub fn begin(&mut self, gen: Option<u64>)
        ensures
            final(self)@ == begun(old(self)@, gen),
    {
        self.inflight = gen;
    }

    /// The turn in flight is being interrupted.
    pub fn abort(&mut self)
        ensures
            final(self)@ == aborted(old(self)@),
    {
        self.aborted = true;
    }

    /// The finish of turn `gen` arrived: `None` when it is not the turn in
    /// flight, else whether that turn had been interrupted.
    pub fn finish(&mut self, gen: u64) -> (r: Option<bool>)
        ensures
            (final(self)@, r) == finished(old(self)@, gen),
    {
        if self.inflight == Some(gen) {
            self.inflight = None;
            let was = self.aborted;
            self.aborted = false;
            Some(was)
        } else {
            None
        }
    }

    /// Whether prompts wait in the lane.
    pub fn has_waiting(&self) -> (r: bool)
        ensures
            r == (self@.waiting.len() > 0),
    {
        self.waiting.len() > 0
    }
}

/// A finish from a turn that is not in flight changes nothing.
pub proof fn law_stale_finish_is_ignored<C>(s: LaneState<C>, gen: u64)
    requires
        s.inflight != Some(gen),
    ensures
        finished(s, gen) == (s, None::<bool>),
{
}

/// Prompts that arrive while a turn runs begin in arrival order, one at a
/// time: after the running turn finishes the first begins, and the second
/// only after the first has finished.
pub proof fn law_waiting_prompts_keep_their_order<C>(running: u64, a: C, b: C, ga: u64, gb: u64)
    ensures
        ({
            let s0 = LaneState { inflight: Some(running), waiting: Seq::<C>::empty(), aborted: false };
            let (s1, r1) = offered(s0, a, false);
            let (s2, r2) = offered(s1, b, false);
            let (s3, ok3) = finished(s2, running);
            let (s4, r4) = drained(s3, false);
            let s5 = begun(s4, Some(ga));
            let (s6, r6) = drained(s5, false);
            let (s7, ok7) = finished(s6, ga);
            let (s8, r8) = drained(s7, false);
            &&& r1 is None && r2 is None
            &&& ok3 == Some(false) && r4 == Some(a)
            &&& r6 is None
            &&& ok7 == Some(false) && r8 == Some(b)
            &&& s8.waiting.len() == 0
        }),
{
    let s0 = LaneState { inflight: Some(running), waiting: Seq::<C>::empty(), aborted: false };
    let (s1, _) = offered(s0, a, false);
    let (s2, _) = offered(s1, b, false);
    assert(s2.waiting =~= seq![a, b]);
    let (s3, _) = finished(s2, running);
    let (s4, _) = drained(s3, false);
    assert(s4.waiting =~= seq![b]);
    let s5 = begun(s4, Some(ga));
    let (s6, _) = drained(s5, false);
    let (s7, _) = finished(s6, ga);
    let (s8, _) = drained(s7, false);
    assert(s8.waiting =~= Seq::<C>::empty());
}

/// An interrupt marks only the turn in flight: its finish reports it, and
/// the next turn on the lane finishes unmarked.
pub proof fn law_interrupt_marks_one_turn<C>(s: LaneState<C>, g1: u64, g2: u64)
    requires
        s.inflight == Some(g1),
    ensures
        ({
            let (s1, r1) = finished(aborted(s), g1);
            let (s2, r2) = finished(begun(s1, Some(g2)), g2);
            r1 == Some(true) && r2 == Some(false)
        }),
{
}

} // verus!
