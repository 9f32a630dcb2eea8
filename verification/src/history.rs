//! Prompt recall in the composer: stepping back through sent prompts and
//! forward again to the draft that was put aside.
use vstd::prelude::*;

verus! {

/// The composer's recall state: the prompts sent, the one shown (if any),
/// the draft put aside when recall began, and the composer text.
pub struct Recall {
    pub history: Vec<String>,
    pub pos: Option<usize>,
    pub stash: String,
    pub buffer: String,
}

pub struct RecallView {
    pub history: Seq<Seq<char>>,
    pub pos: Option<int>,
    pub stash: Seq<char>,
    pub buffer: Seq<char>,
}

impl View for Recall {
    type V = RecallView;

    open spec fn view(&self) -> RecallView {
        RecallView {
            history: self.history@.map_values(|s: String| s@),
            pos: match self.pos {
                Some(p) => Some(p as int),
                None => None,
            },
            stash: self.stash@,
            buffer: self.buffer@,
        }
    }
}

/// A recalled position names a sent prompt.
pub open spec fn recall_ok(v: RecallView) -> bool {
    v.pos matches Some(p) ==> 0 <= p < v.history.len()
}

/// Step back from a given draft: recall begins at the newest prompt
/// (putting the draft aside) and moves to older ones, stopping at the
/// oldest; nothing happens without history.
pub open spec fn stepped_back(v: RecallView) -> RecallView {
    if v.history.len() == 0 {
        v
    } else {
        let pos = match v.pos {
            None => v.history.len() - 1,
            Some(p) => if p == 0 { 0 } else { p - 1 },
        };
        RecallView {
            history: v.history,
            pos: Some(pos),
            stash: if v.pos is None { v.buffer } else { v.stash },
            buffer: v.history[pos],
        }
    }
}

/// Up on the composer: recall opens only from an empty prompt (or goes on
/// once open).
pub open spec fn recalled_prev(v: RecallView) -> RecallView {
    if v.buffer.len() > 0 && v.pos is None {
        v
    } else {
        stepped_back(v)
    }
}

/// Down on the composer: to the next newer prompt, or past the newest back
/// to the draft put aside; nothing while not recalling.
pub open spec fn recalled_next(v: RecallView) -> RecallView {
    match v.pos {
        None => v,
        Some(p) => if p + 1 >= v.history.len() {
            RecallView { history: v.history, pos: None, stash: Seq::empty(), buffer: v.stash }
        } else {
            RecallView { history: v.history, pos: Some(p + 1), stash: v.stash, buffer: v.history[p + 1] }
        },
    }
}

impl Recall {
    /// Up from an empty prompt or while recalling.
    pub fn history_prev(&mut self)
        requires
            recall_ok(old(self)@),
        ensures
            final(self)@ == recalled_prev(old(self)@),
            recall_ok(final(self)@),
    {
        if crate::text::char_len(self.buffer.as_str()) > 0 && self.pos.is_none() {
            return;
        }
        self.history_prev_from_draft_inner();
    }

    /// Up from a draft: recall begins even when the prompt holds text.
    pub fn history_prev_from_draft(&mut self)
        requires
            recall_ok(old(self)@),
        ensures
            final(self)@ == stepped_back(old(self)@),
            recall_ok(final(self)@),
    {
        self.history_prev_from_draft_inner();
    }

    fn history_prev_from_draft_inner(&mut self)
        requires
            recall_ok(old(self)@),
        ensures
            final(self)@ == stepped_back(old(self)@),
            recall_ok(final(self)@),
    {
        if self.history.len() == 0 {
            return;
        }
        let pos = match self.pos {
            None => {
                let draft = self.buffer.clone();
                self.stash = draft;
                self.history.len() - 1
            },
            Some(p) => if p == 0 {
                0
            } else {
                p - 1
            },
        };
        self.pos = Some(pos);
        self.buffer = self.history[pos].clone();
        proof {
            assert(self@.history == old(self)@.history);
        }
    }

    /// Down: the next newer prompt, or back to the draft.
    pub fn history_next(&mut self)
        requires
            recall_ok(old(self)@),
        ensures
            final(self)@ == recalled_next(old(self)@),
            recall_ok(final(self)@),
    {
        let p = match self.pos {
            Some(p) => p,
            None => {
                return;
            },
        };
        assert(self@.history.len() == self.history.len());
        if p + 1 >= self.history.len() {
            self.pos = None;
            let draft = self.stash.clone();
            self.stash = String::new();
            self.buffer = draft;
        } else {
            self.pos = Some(p + 1);
            self.buffer = self.history[p + 1].clone();
        }
    }
}

/// The composer after its draft went into history: the draft is the newest
/// entry and the composer starts afresh, empty and not recalling.
pub open spec fn cleared_into_history(v: RecallView) -> RecallView {
    RecallView { history: v.history.push(v.buffer), pos: None, stash: Seq::empty(), buffer: Seq::empty() }
}

impl Recall {
    /// Put the draft into history and empty the composer.
    pub fn clear_into_history(&mut self)
        requires
            recall_ok(old(self)@),
        ensures
            final(self)@ == cleared_into_history(old(self)@),
            recall_ok(final(self)@),
    {
        let draft = self.buffer.clone();
        self.history.push(draft);
        self.buffer = String::new();
        self.stash = String::new();
        self.pos = None;
        proof {
            assert(self@.history =~= old(self)@.history.push(old(self)@.buffer));
        }
    }
}

/// A draft put into history comes back with one step up from the emptied
/// composer.
pub proof fn law_cleared_draft_is_recalled(v: RecallView)
    requires
        recall_ok(v),
    ensures
        cleared_into_history(v).buffer.len() == 0,
        cleared_into_history(v).history.last() == v.buffer,
        recalled_prev(cleared_into_history(v)).buffer == v.buffer,
{
}

/// Stepping back into the history and forward again returns the draft that
/// was in the composer and ends the recall.
pub proof fn law_recall_returns_to_the_draft(v: RecallView)
    requires
        recall_ok(v),
        v.pos is None,
        v.history.len() == 1,
    ensures
        recalled_next(stepped_back(v)).buffer == v.buffer,
        recalled_next(stepped_back(v)).pos is None,
{
}

/// Going back and forward again from any recalled prompt that has a newer
/// one lands back on it.
pub proof fn law_back_then_forward(v: RecallView)
    requires
        recall_ok(v),
        v.pos matches Some(p) && 0 < p,
    ensures
        recalled_next(stepped_back(v)).buffer == v.history[v.pos->0],
        recalled_next(stepped_back(v)).pos == v.pos,
        recalled_next(stepped_back(v)).stash == v.stash,
{
}

/// Recall never leaves the sent prompts: every step keeps the position on
/// one of them.
pub proof fn law_recall_stays_in_range(v: RecallView)
    requires
        recall_ok(v),
    ensures
        recall_ok(recalled_prev(v)),
        recall_ok(stepped_back(v)),
        recall_ok(recalled_next(v)),
{
}

} // verus!
