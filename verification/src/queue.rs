//! The prompt queue shelf: prompts waiting to be sent, the window of them
//! the shelf shows, their one-line summaries, and removing one.
use vstd::prelude::*;
use crate::harness::join;
use crate::staging::{StagedBlock, Attachment};
use crate::text::{chars_of, split_words, string_from, words};

verus! {

/// A prompt waiting in the queue.
pub struct QueuedPrompt {
    pub id: u64,
    pub blocks: Vec<StagedBlock>,
}

/// One row of the queue shelf.
pub struct QueuePreview {
    pub id: u64,
    /// Its place in the queue, counting from one.
    pub ordinal: usize,
    pub summary: String,
    pub selected: bool,
    pub editing: bool,
}

/// The first queue position the shelf shows: the whole queue when it fits
/// (or no limit is set), else a window of `limit` that keeps the focused
/// prompt in view and does not run past the end.
pub open spec fn window_start(len: int, limit: int, focused: Option<int>) -> int {
    if limit == 0 || len <= limit {
        0
    } else {
        let f = match focused {
            Some(f) => f,
            None => 0,
        };
        let back = if f > limit - 1 { f - (limit - 1) } else { 0 };
        if back < len - limit { back } else { len - limit }
    }
}

/// How many rows the shelf shows from its start.
pub open spec fn window_len(len: int, limit: int, start: int) -> int {
    let room = if limit == 0 { len } else { limit };
    if start + room <= len { room } else { len - start }
}

/// A text block's words, single-spaced.
pub open spec fn text_part(t: Seq<char>) -> Seq<char> {
    join(words(t), seq![' '])
}

/// The pieces of a prompt's summary: each text block's words (when any)
/// and each image as `▣ name`.
pub open spec fn summary_parts(blocks: Seq<StagedBlock>) -> Seq<Seq<char>>
    decreases blocks.len(),
{
    if blocks.len() == 0 {
        Seq::empty()
    } else {
        let rest = summary_parts(blocks.drop_last());
        match blocks.last() {
            StagedBlock::Text(t) => if text_part(t@).len() > 0 {
                rest.push(text_part(t@))
            } else {
                rest
            },
            StagedBlock::Image(a) => rest.push("▣ "@ + a.name@),
        }
    }
}

/// A prompt's one-line summary: its pieces joined by spaces, or
/// `empty prompt`.
pub open spec fn summary_of(blocks: Seq<StagedBlock>) -> Seq<char> {
    let parts = summary_parts(blocks);
    if parts.len() == 0 { "empty prompt"@ } else { join(parts, seq![' ']) }
}

/// The row of the queued prompt at `index`.
pub open spec fn preview_of(p: QueuedPrompt, index: int, selection: Option<usize>, editing: Option<u64>) -> (u64, int, Seq<char>, bool, bool) {
    (p.id, index + 1, summary_of(p.blocks@), selection == Some(index as usize), editing == Some(p.id))
}

pub open spec fn row_of(r: QueuePreview) -> (u64, int, Seq<char>, bool, bool) {
    (r.id, r.ordinal as int, r.summary@, r.selected, r.editing)
}

/// The position of the prompt with this id.
pub open spec fn position_of(queue: Seq<QueuedPrompt>, id: u64) -> Option<int>
    decreases queue.len(),
{
    if queue.len() == 0 {
        None
    } else if queue[0].id == id {
        Some(0)
    } else {
        match position_of(queue.drop_first(), id) {
            Some(i) => Some(i + 1),
            None => None,
        }
    }
}

/// The prompt in focus: the selected one, else the one being edited.
pub open spec fn focus_of(queue: Seq<QueuedPrompt>, selection: Option<usize>, editing: Option<u64>) -> Option<int> {
    match selection {
        Some(s) => Some(s as int),
        None => match editing {
            Some(id) => position_of(queue, id),
            None => None,
        },
    }
}

proof fn lemma_position_of(queue: Seq<QueuedPrompt>, id: u64, k: int)
    requires
        0 <= k <= queue.len(),
        forall|j: int| 0 <= j < k ==> (#[trigger] queue[j]).id != id,
    ensures
        k < queue.len() && queue[k].id == id ==> position_of(queue, id) == Some(k),
        k == queue.len() ==> position_of(queue, id) is None,
    decreases k,
{
    if k > 0 {
        assert forall|j: int| 0 <= j < k - 1 implies (#[trigger] queue.drop_first()[j]).id != id by {
            assert(queue.drop_first()[j] == queue[j + 1]);
        }
        if k < queue.len() {
            assert(queue.drop_first()[k - 1] == queue[k]);
        }
        lemma_position_of(queue.drop_first(), id, k - 1);
        assert(queue[0].id != id);
    }
}

/// The position of the prompt with this id, if it is still queued.
pub fn queue_position(queue: &Vec<QueuedPrompt>, id: u64) -> (r: Option<usize>)
    ensures
        match r {
            Some(i) => position_of(queue@, id) == Some(i as int) && i < queue.len(),
            None => position_of(queue@, id) is None,
        },
{
    let mut i: usize = 0;
    while i < queue.len()
        invariant
            i <= queue.len(),
            forall|j: int| 0 <= j < i ==> (#[trigger] queue@[j]).id != id,
        decreases queue.len() - i,
    {
        if queue[i].id == id {
            proof {
                lemma_position_of(queue@, id, i as int);
            }
            return Some(i);
        }
        i = i + 1;
    }
    proof {
        lemma_position_of(queue@, id, i as int);
    }
    None
}

fn text_summary(t: &String) -> (r: String)
    ensures
        r@ == text_part(t@),
{
    let v = chars_of(t.as_str());
    let ws = split_words(&v);
    let ghost wv = ws@.map_values(|w: Vec<char>| w@);
    let mut out: Vec<char> = Vec::new();
    let mut i: usize = 0;
    while i < ws.len()
        invariant
            i <= ws.len(),
            wv == ws@.map_values(|w: Vec<char>| w@),
            wv == words(t@),
            out@ == join(wv.take(i as int), seq![' ']),
        decreases ws.len() - i,
    {
        let w = &ws[i];
        assert(wv[i as int] == w@);
        let ghost before = out@;
        if i > 0 {
            out.push(' ');
        }
        let mut k: usize = 0;
        let ghost base = out@;
        while k < w.len()
            invariant
                k <= w.len(),
                out@ == base + w@.take(k as int),
            decreases w.len() - k,
        {
            out.push(w[k]);
            assert(w@.take(k + 1) =~= w@.take(k as int).push(w@[k as int]));
            k = k + 1;
        }
        assert(w@.take(w.len() as int) =~= w@);
        proof {
            assert(wv.take(i + 1).drop_last() =~= wv.take(i as int));
            if i == 0 {
                assert(wv.take(1) =~= seq![wv[0]]);
                assert(out@ =~= wv[0]);
            } else {
                assert(out@ =~= before + seq![' '] + wv[i as int]);
            }
        }
        i = i + 1;
    }
    assert(wv.take(ws.len() as int) =~= wv);
    string_from(out.as_slice())
}

/// A queued prompt's one-line summary.
pub fn prompt_summary(blocks: &Vec<StagedBlock>) -> (r: String)
    ensures
        r@ == summary_of(blocks@),
{
    let mut parts: Vec<String> = Vec::new();
    let mut i: usize = 0;
    while i < blocks.len()
        invariant
            i <= blocks.len(),
            parts@.map_values(|s: String| s@) == summary_parts(blocks@.take(i as int)),
        decreases blocks.len() - i,
    {
        let ghost before = parts@.map_values(|s: String| s@);
        assert(blocks@.take(i + 1).drop_last() =~= blocks@.take(i as int));
        assert(blocks@.take(i + 1).last() == blocks@[i as int]);
        match &blocks[i] {
            StagedBlock::Text(t) => {
                let part = text_summary(t);
                if crate::text::char_len(part.as_str()) > 0 {
                    let ghost pv = part@;
                    parts.push(part);
                    assert(parts@.map_values(|s: String| s@) =~= before.push(pv));
                }
            },
            StagedBlock::Image(a) => {
                let part = crate::text::concat_str("▣ ", a.name.as_str());
                let ghost pv = part@;
                parts.push(part);
                assert(parts@.map_values(|s: String| s@) =~= before.push(pv));
            },
        }
        i = i + 1;
    }
    assert(blocks@.take(blocks.len() as int) =~= blocks@);
    if parts.len() == 0 {
        "empty prompt".to_owned()
    } else {
        crate::harness::join_spaces(&parts)
    }
}

/// The rows of the queue shelf, at most `limit` of them (all when `limit`
/// is 0), windowed to keep the selected or edited prompt in view.
pub fn queue_previews(queue: &Vec<QueuedPrompt>, limit: usize, selection: Option<usize>, editing: Option<u64>) -> (r: Vec<QueuePreview>)
    ensures
        ({
            let start = window_start(queue.len() as int, limit as int, focus_of(queue@, selection, editing));
            let n = window_len(queue.len() as int, limit as int, start);
            &&& r@.len() == n
            &&& forall|k: int| 0 <= k < n ==> #[trigger] row_of(r@[k]) == preview_of(queue@[start + k], start + k, selection, editing)
        }),
{
    let focused: Option<usize> = match selection {
        Some(s) => Some(s),
        None => match editing {
            Some(id) => queue_position(queue, id),
            None => None,
        },
    };
    let len = queue.len();
    let start: usize = if limit == 0 || len <= limit {
        0
    } else {
        let f = match focused {
            Some(f) => f,
            None => 0,
        };
        let back = if f > limit - 1 { f - (limit - 1) } else { 0 };
        if back < len - limit { back } else { len - limit }
    };
    let room = if limit == 0 { len } else { limit };
    let end = if room <= len - start { start + room } else { len };
    let mut out: Vec<QueuePreview> = Vec::new();
    let mut i = start;
    while i < end
        invariant
            start <= i <= end <= len == queue.len(),
            out@.len() == i - start,
            forall|k: int| 0 <= k < i - start ==> #[trigger] row_of(out@[k]) == preview_of(queue@[start + k], start + k, selection, editing),
        decreases end - i,
    {
        let p = &queue[i];
        let summary = prompt_summary(&p.blocks);
        let selected = match selection {
            Some(s) => s == i,
            None => false,
        };
        let is_editing = match editing {
            Some(id) => id == p.id,
            None => false,
        };
        let row = QueuePreview { id: p.id, ordinal: i + 1, summary, selected, editing: is_editing };
        let ghost before = out@;
        out.push(row);
        proof {
            assert forall|k: int| 0 <= k < i + 1 - start implies #[trigger] row_of(out@[k]) == preview_of(queue@[start + k], start + k, selection, editing) by {
                if k < i - start {
                    assert(out@[k] == before[k]);
                }
            }
        }
        i = i + 1;
    }
    out
}

/// The focused prompt is always on the shelf: a window of `limit` rows
/// (with a limit set) holds the focused position of a longer queue.
pub proof fn law_focus_stays_in_view(len: int, limit: int, focused: int)
    requires
        0 < limit,
        0 <= focused < len,
    ensures
        ({
            let start = window_start(len, limit, Some(focused));
            start <= focused < start + window_len(len, limit, start)
        }),
{
}

/// Remove the prompt with this id from the queue, reporting where it stood;
/// the other prompts keep their order. Nothing changes when it already left.
pub fn remove_queued(queue: &mut Vec<QueuedPrompt>, id: u64) -> (r: Option<usize>)
    ensures
        match position_of(old(queue)@, id) {
            Some(i) => r == Some(i as usize) && final(queue)@ == old(queue)@.remove(i),
            None => r is None && final(queue)@ == old(queue)@,
        },
{
    match queue_position(queue, id) {
        Some(i) => {
            queue.remove(i);
            Some(i)
        },
        None => None,
    }
}

} // verus!
