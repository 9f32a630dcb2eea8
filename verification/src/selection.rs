//! Mouse selection over the chat pane and the composer: endpoints, hit
//! testing against the last frame's layout snapshot, display-cell slicing
//! and the text a selection copies.
use vstd::prelude::*;
use crate::harness::join;
use crate::text::{char_is_white, chars_of, is_white, string_from, trim_end};

verus! {

/// A screen rectangle in terminal cells.
#[derive(Clone, Copy, Debug, PartialEq, Eq, Structural)]
pub struct Rect {
    pub x: u16,
    pub y: u16,
    pub width: u16,
    pub height: u16,
}

pub open spec fn sat_add16(a: u16, b: u16) -> u16 {
    if a + b > u16::MAX { u16::MAX } else { (a + b) as u16 }
}

impl Rect {
    /// The screen cell `(col, row)` lies inside the rectangle.
    pub open spec fn holds(self, col: u16, row: u16) -> bool {
        col >= self.x && col < sat_add16(self.x, self.width) && row >= self.y && row < sat_add16(
            self.y,
            self.height,
        )
    }

    /// Hit-test a screen cell.
    pub fn contains(&self, col: u16, row: u16) -> (b: bool)
        ensures
            b == self.holds(col, row),
    {
        col >= self.x && col < self.x.saturating_add(self.width) && row >= self.y && row
            < self.y.saturating_add(self.height)
    }
}

/// The first of `rects` that holds the cell, by its tag.
pub open spec fn first_hit(rects: Seq<(Rect, usize)>, col: u16, row: u16) -> Option<usize>
    decreases rects.len(),
{
    if rects.len() == 0 {
        None
    } else if rects[0].0.holds(col, row) {
        Some(rects[0].1)
    } else {
        first_hit(rects.drop_first(), col, row)
    }
}

/// Hit-test a cell against tagged rectangles (chips, tabs): the tag of the
/// first rectangle holding it.
pub fn hit_tagged(rects: &Vec<(Rect, usize)>, col: u16, row: u16) -> (r: Option<usize>)
    ensures
        r == first_hit(rects@, col, row),
{
    let mut i: usize = 0;
    assert(rects@.skip(0) =~= rects@);
    while i < rects.len()
        invariant
            i <= rects.len(),
            first_hit(rects@, col, row) == first_hit(rects@.skip(i as int), col, row),
        decreases rects.len() - i,
    {
        assert(rects@.skip(i as int).drop_first() =~= rects@.skip(i + 1));
        assert(rects@.skip(i as int)[0] == rects@[i as int]);
        if rects[i].0.contains(col, row) {
            return Some(rects[i].1);
        }
        i = i + 1;
    }
    None
}

/// One endpoint of a mouse selection in chat-layout coordinates: `line`
/// indexes the wrapped layout, `col` is a display cell column.
#[derive(Clone, Copy, Debug, PartialEq, Eq, Structural)]
pub struct SelPoint {
    pub line: usize,
    pub col: usize,
}

/// A drag selection: `anchor` is where the drag started, `head` follows the
/// pointer and may precede the anchor.
#[derive(Clone, Copy, Debug)]
pub struct Selection {
    pub anchor: SelPoint,
    pub head: SelPoint,
}

/// `a` precedes `b` in document order (line, then column).
pub open spec fn point_before(a: SelPoint, b: SelPoint) -> bool {
    a.line < b.line || (a.line == b.line && a.col < b.col)
}

impl Selection {
    /// `(start, end)` in document order; `end` is inclusive.
    pub open spec fn spec_ordered(self) -> (SelPoint, SelPoint) {
        if point_before(self.head, self.anchor) {
            (self.head, self.anchor)
        } else {
            (self.anchor, self.head)
        }
    }

    /// (start, end) in document order; `end` is inclusive (the cell under
    /// the pointer is part of the selection).
    pub fn ordered(&self) -> (r: (SelPoint, SelPoint))
        ensures
            r == self.spec_ordered(),
    {
        if self.head.line < self.anchor.line || (self.head.line == self.anchor.line
            && self.head.col < self.anchor.col) {
            (self.head, self.anchor)
        } else {
            (self.anchor, self.head)
        }
    }

    /// A plain click: anchor and head coincide.
    pub fn is_caret(&self) -> (b: bool)
        ensures
            b == (self.anchor == self.head),
    {
        self.anchor.line == self.head.line && self.anchor.col == self.head.col
    }
}

/// Composer drag-selection: `(row, col)` cells where the drag began and
/// where the pointer is now.
#[derive(Clone, Copy, Debug, PartialEq, Eq)]
pub struct InputSel {
    pub anchor: (usize, usize),
    pub head: (usize, usize),
}

impl InputSel {
    /// The two endpoint cells, earlier one first.
    pub open spec fn spec_ordered(self) -> ((usize, usize), (usize, usize)) {
        if self.anchor.0 < self.head.0 || (self.anchor.0 == self.head.0 && self.anchor.1 <= self.head.1) {
            (self.anchor, self.head)
        } else {
            (self.head, self.anchor)
        }
    }

    pub fn ordered(&self) -> (r: ((usize, usize), (usize, usize)))
        ensures
            r == self.spec_ordered(),
    {
        if self.anchor.0 < self.head.0 || (self.anchor.0 == self.head.0 && self.anchor.1 <= self.head.1) {
            (self.anchor, self.head)
        } else {
            (self.head, self.anchor)
        }
    }
}

/// A thumbnail the terminal draws over the chat pane.
pub struct ThumbPlacement {
    pub id: u32,
    pub rect: Rect,
    pub data: Vec<u8>,
}

/// Snapshot of the chat pane from the last draw: pane rect, the first
/// visible layout line, the text and owning cell of each visible line, and
/// the total layout line count.
pub struct ChatView {
    pub area: Rect,
    pub top: usize,
    /// Absolute top line while the user explores scrollback; `None` follows
    /// the streaming tail.
    pub manual_top: Option<usize>,
    pub lines: Vec<String>,
    pub owners: Vec<Option<usize>>,
    pub total: usize,
    pub images: Vec<ThumbPlacement>,
}

/// Display width of a character as `unicode-width` computes it.
pub uninterp spec fn unicode_width(c: char) -> Option<usize>;

/// `UnicodeWidthChar::width`. The contract names the result and states what
/// the crate's source shows for the first 160 code points (printable ASCII
/// is one cell, C0/C1 controls have no width) and that a width comes from a
/// `u8` table; widths of other characters are left unstated.
#[verifier::external_body]
pub(crate) fn char_width(c: char) -> (r: Option<usize>)
    ensures
        r == unicode_width(c),
        (0x20 <= (c as u32) < 0x7f) ==> r == Some(1usize),
        ((c as u32) < 0x20 || (0x7f <= (c as u32) < 0xa0)) ==> r is None,
        r matches Some(w) ==> w <= 255,
{
    unicode_width::UnicodeWidthChar::width(c)
}

/// Cells a character occupies in the chat layout: its width, at least one.
pub open spec fn cell_w(c: char) -> nat {
    match unicode_width(c) {
        Some(w) => if w == 0 { 1 } else { w as nat },
        None => 1,
    }
}

pub fn cell_width(c: char) -> (w: usize)
    ensures
        w == cell_w(c),
        1 <= w <= 255,
{
    match char_width(c) {
        Some(w) => if w == 0 { 1 } else { w },
        None => 1,
    }
}

/// Total cell width of a run of characters.
pub open spec fn total_width(s: Seq<char>) -> nat
    decreases s.len(),
{
    if s.len() == 0 {
        0
    } else {
        total_width(s.drop_last()) + cell_w(s.last())
    }
}

/// The characters whose cell span `[start, start + width)` overlaps
/// `[c0, c1)`, in order.
pub open spec fn slice_cells(s: Seq<char>, c0: int, c1: int) -> Seq<char>
    decreases s.len(),
{
    if s.len() == 0 {
        Seq::empty()
    } else {
        let rest = slice_cells(s.drop_last(), c0, c1);
        let start = total_width(s.drop_last());
        if start + cell_w(s.last()) > c0 && start < c1 {
            rest.push(s.last())
        } else {
            rest
        }
    }
}

/// Slice `s` by the display-cell range `[c0, c1)`: a character is kept when
/// its cell span overlaps the range (a wide character straddling a boundary
/// is kept — what the highlight visually covers).
pub fn slice_by_cells(s: &str, c0: usize, c1: usize) -> (r: String)
    ensures
        r@ == slice_cells(s@, c0 as int, c1 as int),
{
    let v = chars_of(s);
    let mut out: Vec<char> = Vec::new();
    let mut w: u128 = 0;
    let mut i: usize = 0;
    while i < v.len()
        invariant
            i <= v.len(),
            v@ == s@,
            w == total_width(v@.take(i as int)),
            w <= 255 * i,
            out@ == slice_cells(v@.take(i as int), c0 as int, c1 as int),
        decreases v.len() - i,
    {
        let ch = v[i];
        let cw = cell_width(ch);
        assert(v@.take(i + 1).drop_last() =~= v@.take(i as int));
        if w + (cw as u128) > (c0 as u128) && w < (c1 as u128) {
            out.push(ch);
        }
        w = w + (cw as u128);
        i = i + 1;
    }
    assert(v@.take(v.len() as int) =~= v@);
    string_from(out.as_slice())
}

/// Index of the character covering display column `col`.
pub open spec fn hit_char(s: Seq<char>, col: int) -> Option<int>
    decreases s.len(),
{
    if s.len() == 0 {
        None
    } else if col < cell_w(s[0]) {
        Some(0)
    } else {
        match hit_char(s.drop_first(), col - cell_w(s[0])) {
            Some(i) => Some(i + 1),
            None => None,
        }
    }
}

/// Start of the whitespace-delimited word holding position `i`.
pub open spec fn word_start(s: Seq<char>, i: int) -> int
    decreases i,
{
    if i > 0 && i <= s.len() && !is_white(s[i - 1]) {
        word_start(s, i - 1)
    } else {
        i
    }
}

/// Last position of the whitespace-delimited word holding position `i`.
pub open spec fn word_end(s: Seq<char>, i: int) -> int
    decreases s.len() - i,
{
    if 0 <= i && i + 1 < s.len() && !is_white(s[i + 1]) {
        word_end(s, i + 1)
    } else {
        i
    }
}

/// The word under display column `col`: `(start column, cell width, word)`,
/// or `None` on whitespace or past the end.
pub open spec fn word_at(s: Seq<char>, col: int) -> Option<(int, int, Seq<char>)> {
    match hit_char(s, col) {
        Some(i) => if is_white(s[i]) {
            None
        } else {
            let a = word_start(s, i);
            let b = word_end(s, i);
            Some(
                (
                    total_width(s.take(a)) as int,
                    total_width(s.subrange(a, b + 1)) as int,
                    s.subrange(a, b + 1),
                ),
            )
        },
        None => None,
    }
}

proof fn lemma_total_width_push(s: Seq<char>, i: int)
    requires
        0 <= i < s.len(),
    ensures
        total_width(s.take(i + 1)) == total_width(s.take(i)) + cell_w(s[i]),
{
    assert(s.take(i + 1).drop_last() =~= s.take(i));
}

proof fn lemma_hit_char(s: Seq<char>, col: int, i: int)
    requires
        0 <= i <= s.len(),
        col >= total_width(s.take(i)),
        forall|j: int| 0 <= j < i ==> col >= #[trigger] total_width(s.take(j + 1)),
    ensures
        hit_char(s, col) == match hit_char(s.skip(i), col - total_width(s.take(i))) {
            Some(k) => Some(k + i),
            None => None,
        },
    decreases i,
{
    if i == 0 {
        assert(s.skip(0) =~= s);
        assert(s.take(0) =~= Seq::<char>::empty());
    } else {
        let t = s.drop_first();
        assert forall|j: int| 0 <= j < i - 1 implies col - cell_w(s[0]) >= #[trigger] total_width(t.take(j + 1)) by {
            lemma_width_shift(s, j + 1);
            assert(col >= total_width(s.take(j + 2)));
        }
        lemma_width_shift(s, i - 1);
        lemma_width_shift(s, 0);
        assert(s.take(1) =~= seq![s[0]]);
        assert(total_width(seq![s[0]].drop_last()) == 0);
        assert(col >= total_width(s.take(1)));
        lemma_hit_char(t, col - cell_w(s[0]), i - 1);
        assert(t.skip(i - 1) =~= s.skip(i));
    }
}

/// Widths of a prefix split off its first character.
proof fn lemma_width_shift(s: Seq<char>, j: int)
    requires
        0 <= j < s.len(),
    ensures
        total_width(s.take(j + 1)) == cell_w(s[0]) + total_width(s.drop_first().take(j)),
    decreases j,
{
    if j == 0 {
        assert(s.take(1).drop_last() =~= Seq::<char>::empty());
        assert(s.drop_first().take(0) =~= Seq::<char>::empty());
    } else {
        lemma_width_shift(s, j - 1);
        assert(s.take(j + 1).drop_last() =~= s.take(j));
        assert(s.drop_first().take(j).drop_last() =~= s.drop_first().take(j - 1));
        assert(s.drop_first().take(j).last() == s[j]);
    }
}

proof fn lemma_word_start(s: Seq<char>, i: int, a: int)
    requires
        0 <= a <= i < s.len(),
        forall|k: int| a <= k <= i ==> !is_white(#[trigger] s[k]),
        a == 0 || is_white(s[a - 1]),
    ensures
        word_start(s, i) == a,
    decreases i - a,
{
    if i > a {
        lemma_word_start(s, i - 1, a);
    }
}

proof fn lemma_word_end(s: Seq<char>, i: int, b: int)
    requires
        0 <= i <= b < s.len(),
        forall|k: int| i <= k <= b ==> !is_white(#[trigger] s[k]),
        b + 1 == s.len() || is_white(s[b + 1]),
    ensures
        word_end(s, i) == b,
    decreases b - i,
{
    if i < b {
        lemma_word_end(s, i + 1, b);
    }
}

proof fn lemma_width_range(s: Seq<char>, a: int, b: int)
    requires
        0 <= a <= b <= s.len(),
    ensures
        total_width(s.take(b)) == total_width(s.take(a)) + total_width(s.subrange(a, b)),
    decreases b - a,
{
    if b > a {
        lemma_width_range(s, a, b - 1);
        assert(s.take(b).drop_last() =~= s.take(b - 1));
        assert(s.subrange(a, b).drop_last() =~= s.subrange(a, b - 1));
    } else {
        assert(s.subrange(a, b) =~= Seq::<char>::empty());
    }
}

/// The character `hit_char` finds covers the column: its cell span holds it.
proof fn lemma_hit_char_bounds(s: Seq<char>, col: int, i: int)
    requires
        col >= 0,
        hit_char(s, col) == Some(i),
    ensures
        0 <= i < s.len(),
        total_width(s.take(i)) <= col < total_width(s.take(i + 1)),
    decreases s.len(),
{
    lemma_width_shift(s, 0);
    assert(s.drop_first().take(0) =~= Seq::<char>::empty());
    assert(s.take(0) =~= Seq::<char>::empty());
    if col >= cell_w(s[0]) {
        let t = s.drop_first();
        lemma_hit_char_bounds(t, col - cell_w(s[0]), i - 1);
        lemma_width_shift(s, i - 1);
        lemma_width_shift(s, i);
    }
}

/// Prefix widths grow with the prefix.
proof fn lemma_width_mono(s: Seq<char>, a: int, b: int)
    requires
        0 <= a <= b <= s.len(),
    ensures
        total_width(s.take(a)) <= total_width(s.take(b)),
{
    lemma_width_range(s, a, b);
}

proof fn lemma_word_start_le(s: Seq<char>, i: int)
    requires
        0 <= i,
    ensures
        0 <= word_start(s, i) <= i,
    decreases i,
{
    if i > 0 && i <= s.len() && !is_white(s[i - 1]) {
        lemma_word_start_le(s, i - 1);
    }
}

proof fn lemma_word_end_ge(s: Seq<char>, i: int)
    requires
        0 <= i < s.len(),
    ensures
        i <= word_end(s, i) < s.len(),
    decreases s.len() - i,
{
    if i + 1 < s.len() && !is_white(s[i + 1]) {
        lemma_word_end_ge(s, i + 1);
    }
}

/// A double-click selects a word that covers the clicked column: the span
/// starts at or before it and ends after it.
pub proof fn law_word_covers_the_column(s: Seq<char>, col: int)
    requires
        col >= 0,
        word_at(s, col) is Some,
    ensures
        ({
            let (start, width, word) = word_at(s, col)->0;
            start <= col < start + width && word.len() > 0
        }),
{
    let i = hit_char(s, col)->0;
    lemma_hit_char_bounds(s, col, i);
    let a = word_start(s, i);
    let b = word_end(s, i);
    lemma_word_start_le(s, i);
    lemma_word_end_ge(s, i);
    lemma_width_mono(s, a, i);
    lemma_width_mono(s, i + 1, b + 1);
    lemma_width_range(s, a, b + 1);
}

/// The whitespace-delimited word covering display column `col` of `line`:
/// `(start_col, cell_width, word)`. `None` on whitespace or past the end.
pub fn word_span(line: &str, col: usize) -> (r: Option<(usize, usize, String)>)
    requires
        total_width(line@) <= usize::MAX,
    ensures
        match r {
            Some((start, width, word)) => word_at(line@, col as int) == Some(
                (start as int, width as int, word@),
            ),
            None => word_at(line@, col as int) is None,
        },
{
    let chars = chars_of(line);
    let n = chars.len();
    let mut w: u128 = 0;
    let mut i: usize = 0;
    while i < n && (col as u128) >= w + (cell_width(chars[i]) as u128)
        invariant
            i <= n == chars.len(),
            chars@ == line@,
            w == total_width(chars@.take(i as int)),
            w <= 255 * i,
            forall|j: int| 0 <= j < i ==> col >= #[trigger] total_width(chars@.take(j + 1)),
        decreases n - i,
    {
        proof {
            lemma_total_width_push(chars@, i as int);
        }
        w = w + (cell_width(chars[i]) as u128);
        i = i + 1;
    }
    proof {
        assert(col >= total_width(chars@.take(i as int))) by {
            if i > 0 {
                assert(col >= total_width(chars@.take((i - 1) + 1)));
            } else {
                assert(chars@.take(0) =~= Seq::<char>::empty());
            }
        }
        lemma_hit_char(chars@, col as int, i as int);
        let t = chars@.skip(i as int);
        if i < n {
            lemma_total_width_push(chars@, i as int);
            assert(t[0] == chars@[i as int]);
            assert(col - total_width(chars@.take(i as int)) < cell_w(t[0]));
        } else {
            assert(t.len() == 0);
        }
    }
    if i == n {
        return None;
    }
    assert(hit_char(line@, col as int) == Some(i as int));
    if char_is_white(chars[i]) {
        return None;
    }
    let mut a = i;
    while a > 0 && !char_is_white(chars[a - 1])
        invariant
            a <= i < n == chars.len(),
            forall|k: int| a <= k <= i ==> !is_white(#[trigger] chars@[k]),
        decreases a,
    {
        a = a - 1;
    }
    let mut b = i;
    while b + 1 < n && !char_is_white(chars[b + 1])
        invariant
            i <= b < n == chars.len(),
            forall|k: int| i <= k <= b ==> !is_white(#[trigger] chars@[k]),
        decreases n - b,
    {
        b = b + 1;
    }
    proof {
        lemma_word_start(chars@, i as int, a as int);
        lemma_word_end(chars@, i as int, b as int);
        lemma_width_range(chars@, a as int, (b + 1) as int);
        lemma_width_range(chars@, (b + 1) as int, n as int);
        assert(chars@.take(n as int) =~= chars@);
    }
    let mut start_col: usize = 0;
    let mut k: usize = 0;
    while k < a
        invariant
            k <= a <= b < n == chars.len(),
            start_col == total_width(chars@.take(k as int)),
            total_width(chars@.take(a as int)) <= usize::MAX,
        decreases a - k,
    {
        proof {
            lemma_total_width_push(chars@, k as int);
            lemma_width_range(chars@, (k + 1) as int, a as int);
        }
        start_col = start_col + cell_width(chars[k]);
        k = k + 1;
    }
    let mut width: usize = 0;
    let mut word: Vec<char> = Vec::new();
    let mut k: usize = a;
    while k <= b
        invariant
            a <= k <= b + 1,
            b < n == chars.len(),
            width == total_width(chars@.subrange(a as int, k as int)),
            word@ == chars@.subrange(a as int, k as int),
            total_width(chars@.subrange(a as int, (b + 1) as int)) <= usize::MAX,
        decreases b + 1 - k,
    {
        proof {
            assert(chars@.subrange(a as int, k + 1).drop_last() =~= chars@.subrange(a as int, k as int));
            lemma_width_range(chars@.subrange(a as int, (b + 1) as int), (k + 1 - a) as int, (b + 1 - a) as int);
            assert(chars@.subrange(a as int, (b + 1) as int).take((k + 1 - a) as int) =~= chars@.subrange(a as int, k + 1));
            assert(chars@.subrange(a as int, (b + 1) as int).take((b + 1 - a) as int) =~= chars@.subrange(a as int, (b + 1) as int));
        }
        width = width + cell_width(chars[k]);
        word.push(chars[k]);
        k = k + 1;
    }
    Some((start_col, width, string_from(word.as_slice())))
}

impl ChatView {
    /// An empty snapshot (before the first frame).
    pub fn empty() -> (r: ChatView)
        ensures
            r.top == 0,
            r.manual_top is None,
            r.lines@.len() == 0,
            r.owners@.len() == 0,
            r.total == 0,
            r.images@.len() == 0,
            r.area == (Rect { x: 0, y: 0, width: 0, height: 0 }),
    {
        ChatView {
            area: Rect { x: 0, y: 0, width: 0, height: 0 },
            top: 0,
            manual_top: None,
            lines: Vec::new(),
            owners: Vec::new(),
            total: 0,
            images: Vec::new(),
        }
    }

    /// The snapshot text of an absolute layout line — `None` outside the
    /// viewport the frame captured.
    pub fn line_text(&self, line: usize) -> (r: Option<&str>)
        ensures
            match r {
                Some(t) => self.top <= line && line - self.top < self.lines.len() && t@
                    == self.lines@[line - self.top]@,
                None => line < self.top || line - self.top >= self.lines.len(),
            },
    {
        if line < self.top {
            return None;
        }
        let rel = line - self.top;
        if rel < self.lines.len() {
            Some(self.lines[rel].as_str())
        } else {
            None
        }
    }

    /// The transcript cell owning an absolute layout line — `None` outside
    /// the viewport or for lines no cell owns.
    pub fn line_owner(&self, line: usize) -> (r: Option<usize>)
        ensures
            r == if self.top <= line && line - self.top < self.owners.len() {
                self.owners@[line - self.top]
            } else {
                None
            },
    {
        if line < self.top {
            return None;
        }
        let rel = line - self.top;
        if rel < self.owners.len() {
            self.owners[rel]
        } else {
            None
        }
    }

    /// The layout point under a screen cell: `None` outside the pane or
    /// before any frame; rows below short content clamp to the last line.
    pub open spec fn spec_hit(self, col: u16, row: u16) -> Option<SelPoint> {
        let a = self.area;
        if self.lines@.len() == 0 || !a.holds(col, row) {
            None
        } else {
            let rel = if (row - a.y) < self.lines@.len() - 1 { (row - a.y) as int } else { self.lines@.len() - 1 };
            Some(SelPoint { line: (self.top + rel) as usize, col: (col - a.x) as usize })
        }
    }

    /// Hit-test a screen cell against the chat pane.
    pub fn chat_hit(&self, col: u16, row: u16) -> (r: Option<SelPoint>)
        requires
            self.top + self.lines.len() <= usize::MAX,
        ensures
            r == self.spec_hit(col, row),
    {
        let a = self.area;
        if self.lines.len() == 0 || !a.contains(col, row) {
            return None;
        }
        let dy = (row - a.y) as usize;
        let rel = if dy < self.lines.len() - 1 { dy } else { self.lines.len() - 1 };
        Some(SelPoint { line: self.top + rel, col: (col - a.x) as usize })
    }

    /// The cell clamped into the pane, so drags outside it still extend the
    /// selection to the nearest edge; the origin when nothing is laid out.
    pub open spec fn spec_clamp(self, col: u16, row: u16) -> SelPoint {
        let a = self.area;
        let c = clamp16(col, a.x, sat_add16(a.x, sat_sub16(a.width, 1)));
        let r = clamp16(row, a.y, sat_add16(a.y, sat_sub16(a.height, 1)));
        match self.spec_hit(c, r) {
            Some(p) => p,
            None => SelPoint { line: 0, col: 0 },
        }
    }

    pub fn chat_clamp(&self, col: u16, row: u16) -> (r: SelPoint)
        requires
            self.top + self.lines.len() <= usize::MAX,
        ensures
            r == self.spec_clamp(col, row),
    {
        let a = self.area;
        let hi_c = a.x.saturating_add(a.width.saturating_sub(1));
        let hi_r = a.y.saturating_add(a.height.saturating_sub(1));
        let c = if col < a.x { a.x } else if col > hi_c { hi_c } else { col };
        let r = if row < a.y { a.y } else if row > hi_r { hi_r } else { row };
        match self.chat_hit(c, r) {
            Some(p) => p,
            None => SelPoint { line: 0, col: 0 },
        }
    }

    /// The layout lines a selection covers within the captured viewport:
    /// `(first, last)` snapshot indices, or `None` when it covers none.
    pub open spec fn covered(self, sel: Selection) -> Option<(int, int)> {
        let (s, e) = sel.spec_ordered();
        let n = self.lines@.len() as int;
        if n == 0 || e.line < self.top {
            None
        } else {
            let first = if s.line >= self.top { s.line - self.top } else { 0 };
            let last = if e.line - self.top < n - 1 { e.line - self.top } else { n - 1 };
            if first > last { None } else { Some((first, last)) }
        }
    }

    /// The text copied from snapshot line `li`: its cell slice (from the
    /// start column on the first line, through the end column on the last
    /// line), trailing whitespace trimmed.
    pub open spec fn copied_line(self, sel: Selection, li: int) -> Seq<char> {
        let (s, e) = sel.spec_ordered();
        let c0 = if li + self.top == s.line { s.col as int } else { 0 };
        let c1 = if li + self.top == e.line { e.col + 1 } else { usize::MAX as int };
        trim_end(slice_cells(self.lines@[li]@, c0, c1))
    }

    /// The copied lines of a selection, joined with newlines.
    pub open spec fn spec_selection_text(self, sel: Selection) -> Seq<char> {
        match self.covered(sel) {
            None => Seq::empty(),
            Some((first, last)) => join(
                Seq::new((last - first + 1) as nat, |k: int| self.copied_line(sel, first + k)),
                seq!['\n'],
            ),
        }
    }

    /// Extract the selected text from the layout snapshot: cell-range slices
    /// per line, trailing whitespace trimmed, joined with newlines. A
    /// selection partly outside the captured viewport copies its visible part.
    pub fn selection_text(&self, sel: Selection) -> (r: String)
        requires
            sel.anchor.col < usize::MAX,
            sel.head.col < usize::MAX,
            self.top + self.lines.len() <= usize::MAX,
        ensures
            r@ == self.spec_selection_text(sel),
    {
        let n = self.lines.len();
        if n == 0 {
            return String::new();
        }
        let top = self.top;
        let (s, e) = sel.ordered();
        if e.line < top {
            return String::new();
        }
        let first = if s.line >= top { s.line - top } else { 0 };
        let last = if e.line - top < n - 1 { e.line - top } else { n - 1 };
        if first > last {
            return String::new();
        }
        let ghost parts = Seq::new((last - first + 1) as nat, |k: int| self.copied_line(sel, first + k));
        let mut out: Vec<String> = Vec::new();
        let mut li = first;
        while li <= last
            invariant
                first <= li <= last + 1,
                last < n == self.lines.len(),
                top == self.top,
                (s, e) == sel.spec_ordered(),
                e.col < usize::MAX,
                self.top + self.lines.len() <= usize::MAX,
                parts == Seq::new((last - first + 1) as nat, |k: int| self.copied_line(sel, first + k)),
                out@.map_values(|t: String| t@) == parts.take((li - first) as int),
            decreases last + 1 - li,
        {
            let c0 = if li + top == s.line { s.col } else { 0 };
            let c1 = if li + top == e.line { e.col + 1 } else { usize::MAX };
            let piece = slice_by_cells(self.lines[li].as_str(), c0, c1);
            let trimmed = trim_end_string(piece.as_str());
            let ghost before = out@;
            proof {
                assert(parts[(li - first) as int] == self.copied_line(sel, li as int));
                assert(trimmed@ == self.copied_line(sel, li as int));
            }
            out.push(trimmed);
            assert(out@.map_values(|t: String| t@) =~= before.map_values(|t: String| t@).push(trimmed@));
            assert(parts.take((li + 1 - first) as int) =~= parts.take((li - first) as int).push(parts[(li - first) as int]));
            assert(out@.map_values(|t: String| t@) =~= parts.take((li + 1 - first) as int));
            li = li + 1;
        }
        assert(parts.take((last + 1 - first) as int) =~= parts);
        crate::text::join_lines(&out)
    }
}

pub open spec fn sat_sub16(a: u16, b: u16) -> u16 {
    if a >= b { (a - b) as u16 } else { 0 }
}

/// `u16::clamp` as the original applies it: below `lo` gives `lo`, above
/// `hi` gives `hi`.
pub open spec fn clamp16(v: u16, lo: u16, hi: u16) -> u16 {
    if v < lo { lo } else if v > hi { hi } else { v }
}

/// `str::trim_end`, as a fresh `String`.
pub fn trim_end_string(s: &str) -> (r: String)
    ensures
        r@ == trim_end(s@),
{
    let v = chars_of(s);
    let mut b = v.len();
    assert(v@.take(b as int) =~= v@);
    while b > 0 && char_is_white(v[b - 1])
        invariant
            b <= v.len(),
            v@ == s@,
            trim_end(s@) == trim_end(v@.take(b as int)),
        decreases b,
    {
        assert(v@.take(b as int).drop_last() =~= v@.take(b - 1));
        b = b - 1;
    }
    assert(v@.take(b as int) == trim_end(v@.take(b as int))) by {
        if b > 0 {
            assert(v@.take(b as int).last() == v@[b - 1]);
        }
    }
    crate::text::string_from_range(&v, 0, b)
}

/// Cells the composer's `❯ ` prompt takes.
pub open spec fn prompt_cells() -> nat {
    total_width("❯ "@)
}

/// Cells of the composer's text well: the area's width after the prompt,
/// at least one.
pub open spec fn well_width(area: Rect) -> nat {
    let rest = area.width - prompt_cells();
    if rest < 1 { 1 } else { rest as nat }
}

fn prompt_width() -> (r: u16)
    ensures
        r == prompt_cells(),
{
    let a = cell_width('❯');
    let b = cell_width(' ');
    proof {
        reveal_strlit("❯ ");
        let p = "❯ "@;
        assert(p.len() == 2 && p[0] == '❯' && p[1] == ' ');
        assert(p.drop_last() =~= seq!['❯']);
        let one = seq!['❯'];
        assert(one.drop_last() =~= Seq::<char>::empty());
        assert(one.last() == '❯');
        assert(total_width(Seq::<char>::empty()) == 0);
        assert(total_width(one) == total_width(one.drop_last()) + cell_w(one.last()));
        assert(total_width(p) == total_width(p.drop_last()) + cell_w(p.last()));
    }
    (a + b) as u16
}

/// Whether a screen cell falls in the composer area (an empty area holds none).
pub fn composer_hit(area: &Rect, col: u16, row: u16) -> (r: bool)
    ensures
        r == (area.width > 0 && area.height > 0 && area.holds(col, row)),
{
    area.width > 0 && area.height > 0 && area.contains(col, row)
}

/// Display-cell width of the composer text well.
pub fn composer_avail(area: &Rect) -> (r: usize)
    ensures
        r == well_width(*area),
{
    let pw = prompt_width();
    let rest = area.width.saturating_sub(pw);
    if rest < 1 { 1 } else { rest as usize }
}

/// The text-well cell `(row, col)` under a screen cell: the prompt offset
/// and the viewport's first row `top` applied, clamped into the visible well.
pub fn composer_cell_at(area: &Rect, top: usize, col: u16, row: u16) -> (r: (usize, usize))
    ensures
        ({
            let down = if row >= area.y { row - area.y } else { 0 };
            let last_row = if area.height >= 1 { area.height - 1 } else { 0 };
            let rel_row = if down <= last_row { down } else { last_row };
            let left = sat_add16(area.x, prompt_cells() as u16);
            let right = if col >= left { col - left } else { 0 };
            let last_col = well_width(*area) - 1;
            &&& r.0 == (if rel_row + top > usize::MAX { usize::MAX as int } else { rel_row + top })
            &&& r.1 == (if right <= last_col { right } else { last_col })
        }),
{
    let pw = prompt_width();
    let down = row.saturating_sub(area.y) as usize;
    let last_row = area.height.saturating_sub(1) as usize;
    let rel_row = if down <= last_row { down } else { last_row };
    let right = col.saturating_sub(area.x.saturating_add(pw)) as usize;
    let last_col = composer_avail(area) - 1;
    let rel_col = if right <= last_col { right } else { last_col };
    (rel_row.saturating_add(top), rel_col)
}

} // verus!
