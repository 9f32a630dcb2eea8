//! Composer staging: inline `[image n]` chips, the text/image blocks a draft
//! splits into, and `/resume` prefix matching.
use vstd::prelude::*;
use crate::picker::PickerItem;
use crate::text::{
    chars_of, find_seq, has_prefix, is_blank, occurs_at, str_is_blank, string_from, string_from_range,
    trim, trim_string,
};

verus! {

/// An image staged in the composer: the chip token that stands for it in
/// the draft, and the bytes it carries.
pub struct Attachment {
    pub token: String,
    pub name: String,
    pub media_type: String,
    pub data: Vec<u8>,
    pub path: Option<String>,
}

pub struct AttachmentView {
    pub token: Seq<char>,
    pub name: Seq<char>,
    pub media_type: Seq<char>,
    pub data: Seq<u8>,
    pub path: Option<Seq<char>>,
}

impl View for Attachment {
    type V = AttachmentView;

    open spec fn view(&self) -> AttachmentView {
        AttachmentView {
            token: self.token@,
            name: self.name@,
            media_type: self.media_type@,
            data: self.data@,
            path: match self.path {
                Some(p) => Some(p@),
                None => None,
            },
        }
    }
}

impl Attachment {
    pub fn duplicate(&self) -> (r: Attachment)
        ensures
            r@ == self@,
    {
        let mut data: Vec<u8> = Vec::new();
        let mut i: usize = 0;
        while i < self.data.len()
            invariant
                i <= self.data.len(),
                data@ == self.data@.take(i as int),
            decreases self.data.len() - i,
        {
            data.push(self.data[i]);
            assert(self.data@.take(i + 1) =~= self.data@.take(i as int).push(self.data@[i as int]));
            i = i + 1;
        }
        assert(self.data@.take(self.data.len() as int) =~= self.data@);
        Attachment {
            token: self.token.clone(),
            name: self.name.clone(),
            media_type: self.media_type.clone(),
            data,
            path: match &self.path {
                Some(p) => Some(p.clone()),
                None => None,
            },
        }
    }
}

/// Draft pieces after stripping `[image n]` chips, still in reading order.
pub enum StagedBlock {
    Text(String),
    Image(Attachment),
}

pub enum BlockView {
    Text(Seq<char>),
    Image(AttachmentView),
}

impl View for StagedBlock {
    type V = BlockView;

    open spec fn view(&self) -> BlockView {
        match self {
            StagedBlock::Text(t) => BlockView::Text(t@),
            StagedBlock::Image(a) => BlockView::Image(a@),
        }
    }
}

pub open spec fn block_views(b: Seq<StagedBlock>) -> Seq<BlockView> {
    b.map_values(|x: StagedBlock| x@)
}

/// `(a0, a1, a2) < (b0, b1, b2)` lexicographically.
pub open spec fn span_lt(a: (usize, usize, usize), b: (usize, usize, usize)) -> bool {
    a.0 < b.0 || (a.0 == b.0 && (a.1 < b.1 || (a.1 == b.1 && a.2 < b.2)))
}

pub open spec fn strictly_sorted(s: Seq<(usize, usize, usize)>) -> bool {
    forall|i: int, j: int| 0 <= i < j < s.len() ==> span_lt(s[i], s[j])
}

/// The chip span of attachment `idx` in the draft: `(start, end, idx)` in
/// characters, at the token's first occurrence; `None` when the token is gone.
pub open spec fn chip_span(buf: Seq<char>, token: Seq<char>, idx: usize) -> Option<(usize, usize, usize)> {
    if exists|at: int| occurs_at(buf, token, at) {
        let at = choose|at: int| occurs_at(buf, token, at) && forall|b: int| 0 <= b < at ==> !occurs_at(buf, token, b);
        Some((at as usize, (at + token.len()) as usize, idx))
    } else {
        None
    }
}

/// The spans of the live chips among `atts`, in attachment order.
pub open spec fn spans_in_order(buf: Seq<char>, atts: Seq<AttachmentView>) -> Seq<(usize, usize, usize)>
    decreases atts.len(),
{
    if atts.len() == 0 {
        Seq::empty()
    } else {
        let rest = spans_in_order(buf, atts.drop_last());
        match chip_span(buf, atts.last().token, (atts.len() - 1) as usize) {
            Some(s) => rest.push(s),
            None => rest,
        }
    }
}

proof fn lemma_first_occurrence(buf: Seq<char>, token: Seq<char>, at: int)
    requires
        occurs_at(buf, token, at),
        forall|b: int| 0 <= b < at ==> !occurs_at(buf, token, b),
    ensures
        exists|a: int| occurs_at(buf, token, a),
        (choose|a: int| occurs_at(buf, token, a) && forall|b: int| 0 <= b < a ==> !occurs_at(buf, token, b)) == at,
{
    let a = choose|a: int| occurs_at(buf, token, a) && forall|b: int| 0 <= b < a ==> !occurs_at(buf, token, b);
    assert(occurs_at(buf, token, a) && forall|b: int| 0 <= b < a ==> !occurs_at(buf, token, b));
    if a < at {
        assert(!occurs_at(buf, token, a));
    }
    if at < a {
        assert(!occurs_at(buf, token, at));
    }
}

proof fn lemma_spans_idx(buf: Seq<char>, atts: Seq<AttachmentView>)
    requires
        atts.len() <= usize::MAX,
    ensures
        forall|i: int| 0 <= i < spans_in_order(buf, atts).len() ==> (#[trigger] spans_in_order(buf, atts)[i]).2 < atts.len(),
        forall|i: int, j: int| 0 <= i < j < spans_in_order(buf, atts).len() ==> spans_in_order(buf, atts)[i].2 < spans_in_order(buf, atts)[j].2,
    decreases atts.len(),
{
    if atts.len() > 0 {
        lemma_spans_idx(buf, atts.drop_last());
        let rest = spans_in_order(buf, atts.drop_last());
        let whole = spans_in_order(buf, atts);
        match chip_span(buf, atts.last().token, (atts.len() - 1) as usize) {
            Some(sp) => {
                assert(whole == rest.push(sp));
                assert(sp.2 == atts.len() - 1);
                assert forall|i: int| 0 <= i < whole.len() implies (#[trigger] whole[i]).2 < atts.len() by {
                    if i < rest.len() {
                        assert(whole[i] == rest[i]);
                    }
                }
                assert forall|i: int, j: int| 0 <= i < j < whole.len() implies whole[i].2 < whole[j].2 by {
                    assert(whole[i] == rest[i]);
                    if j < rest.len() {
                        assert(whole[j] == rest[j]);
                    }
                }
            },
            None => {
                assert(whole == rest);
            },
        }
    }
}

/// Whether attachment `i` has a chip among `spans`.
pub open spec fn has_chip(spans: Seq<(usize, usize, usize)>, i: int) -> bool {
    exists|k: int| 0 <= k < spans.len() && spans[k].2 == i
}

/// An attachment has a chip in the draft exactly when its token occurs in
/// the draft text.
pub proof fn law_chip_iff_token_occurs(buf: Seq<char>, atts: Seq<AttachmentView>, i: int)
    requires
        0 <= i < atts.len(),
        atts.len() <= usize::MAX,
    ensures
        has_chip(spans_in_order(buf, atts), i) <==> exists|at: int| occurs_at(buf, atts[i].token, at),
    decreases atts.len(),
{
    let rest = spans_in_order(buf, atts.drop_last());
    let whole = spans_in_order(buf, atts);
    let last = (atts.len() - 1) as int;
    lemma_spans_idx(buf, atts.drop_last());
    if i < last {
        law_chip_iff_token_occurs(buf, atts.drop_last(), i);
        assert(atts.drop_last()[i] == atts[i]);
    }
    match chip_span(buf, atts.last().token, last as usize) {
        Some(sp) => {
            assert(whole == rest.push(sp));
            assert(sp.2 == last);
            if has_chip(rest, i) {
                let k = choose|k: int| 0 <= k < rest.len() && rest[k].2 == i;
                assert(whole[k] == rest[k]);
            }
            if has_chip(whole, i) {
                let k = choose|k: int| 0 <= k < whole.len() && whole[k].2 == i;
                if k < rest.len() {
                    assert(whole[k] == rest[k]);
                } else if i < last {
                    assert(whole[k] == sp);
                }
            }
            if i == last {
                assert(whole[rest.len() as int] == sp);
            }
        },
        None => {
            assert(whole == rest);
            if i == last {
                if has_chip(rest, i) {
                    let k = choose|k: int| 0 <= k < rest.len() && rest[k].2 == i;
                    assert(rest[k].2 < atts.drop_last().len());
                }
            }
        },
    }
}

proof fn lemma_push_to_set<T>(s: Seq<T>, x: T)
    ensures
        s.push(x).to_set() == s.to_set().insert(x),
{
    assert forall|y: T| s.push(x).to_set().contains(y) <==> s.to_set().insert(x).contains(y) by {
        if s.push(x).contains(y) {
            let k = choose|k: int| 0 <= k < s.push(x).len() && s.push(x)[k] == y;
            if k < s.len() {
                assert(s[k] == y);
            }
        }
        if s.contains(y) {
            let k = choose|k: int| 0 <= k < s.len() && s[k] == y;
            assert(s.push(x)[k] == y);
        }
        if y == x {
            assert(s.push(x)[s.len() as int] == x);
        }
    }
    assert(s.push(x).to_set() =~= s.to_set().insert(x));
}

/// How many leading elements of `s` precede `x`.
pub open spec fn lead_lt(s: Seq<(usize, usize, usize)>, x: (usize, usize, usize)) -> nat
    decreases s.len(),
{
    if s.len() > 0 && span_lt(s[0], x) {
        1 + lead_lt(s.drop_first(), x)
    } else {
        0
    }
}

/// `x` inserted before the first element it does not follow.
pub open spec fn insert_span(s: Seq<(usize, usize, usize)>, x: (usize, usize, usize)) -> Seq<(usize, usize, usize)> {
    s.take(lead_lt(s, x) as int).push(x) + s.skip(lead_lt(s, x) as int)
}

/// Insertion sort of spans by position.
pub open spec fn sort_spans(s: Seq<(usize, usize, usize)>) -> Seq<(usize, usize, usize)>
    decreases s.len(),
{
    if s.len() == 0 {
        s
    } else {
        insert_span(sort_spans(s.drop_last()), s.last())
    }
}

proof fn lemma_lead_lt(s: Seq<(usize, usize, usize)>, x: (usize, usize, usize), p: int)
    requires
        0 <= p <= s.len(),
        forall|k: int| 0 <= k < p ==> span_lt(s[k], x),
        p == s.len() || !span_lt(s[p], x),
    ensures
        lead_lt(s, x) == p,
    decreases p,
{
    if p > 0 {
        lemma_lead_lt(s.drop_first(), x, p - 1);
    }
}

/// Insert `x` into a strictly sorted vector at its place.
fn insert_sorted(v: &mut Vec<(usize, usize, usize)>, x: (usize, usize, usize))
    requires
        strictly_sorted(old(v)@),
        !old(v)@.contains(x),
    ensures
        strictly_sorted(final(v)@),
        final(v)@ == insert_span(old(v)@, x),
        final(v)@.to_set() == old(v)@.to_set().insert(x),
        final(v)@.len() == old(v)@.len() + 1,
{
    let mut p: usize = 0;
    while p < v.len() && span_less(v[p], x)
        invariant
            p <= v.len(),
            forall|k: int| 0 <= k < p ==> span_lt(v@[k], x),
        decreases v.len() - p,
    {
        p = p + 1;
    }
    let ghost before = v@;
    proof {
        if p < v.len() {
            assert(v@[p as int] != x);
        }
    }
    v.insert(p, x);
    proof {
        lemma_lead_lt(before, x, p as int);
        assert(v@ =~= insert_span(before, x));
        assert forall|i: int, j: int| 0 <= i < j < v@.len() implies span_lt(v@[i], v@[j]) by {
            if j < p {
            } else if j == p {
                assert(span_lt(before[i], x));
            } else if i < p {
                assert(span_lt(before[i], x));
                if p < before.len() {
                    assert(!span_lt(before[p as int], x));
                    if j - 1 > p {
                        assert(span_lt(before[p as int], before[j - 1]));
                    }
                }
            } else if i == p {
                assert(!span_lt(before[p as int], x));
                if j - 1 > p {
                    assert(span_lt(before[p as int], before[j - 1]));
                }
            } else {
                assert(span_lt(before[i - 1], before[j - 1]));
            }
        }
        assert forall|y| v@.to_set().contains(y) <==> before.to_set().insert(x).contains(y) by {
            if v@.contains(y) {
                let k = choose|k: int| 0 <= k < v@.len() && v@[k] == y;
                if k < p { assert(before[k] == y); } else if k > p { assert(before[k - 1] == y); }
            }
            if before.contains(y) {
                let k = choose|k: int| 0 <= k < before.len() && before[k] == y;
                if k < p { assert(v@[k] == y); } else { assert(v@[k + 1] == y); }
            }
            if y == x {
                assert(v@[p as int] == x);
            }
        }
        assert(v@.to_set() =~= before.to_set().insert(x));
    }
}

fn span_less(a: (usize, usize, usize), b: (usize, usize, usize)) -> (r: bool)
    ensures
        r == span_lt(a, b),
{
    a.0 < b.0 || (a.0 == b.0 && (a.1 < b.1 || (a.1 == b.1 && a.2 < b.2)))
}

/// Char-index spans of live chip tokens in the draft, sorted by position:
/// `(start, end_exclusive, attachment idx)`.
pub fn token_spans_in(buf: &str, attachments: &Vec<Attachment>) -> (r: Vec<(usize, usize, usize)>)
    ensures
        strictly_sorted(r@),
        r@ == sort_spans(spans_in_order(buf@, attachments@.map_values(|a: Attachment| a@))),
        r@.to_set() == spans_in_order(buf@, attachments@.map_values(|a: Attachment| a@)).to_set(),
        r@.len() == spans_in_order(buf@, attachments@.map_values(|a: Attachment| a@)).len(),
{
    let b = chars_of(buf);
    let ghost atts = attachments@.map_values(|a: Attachment| a@);
    let mut spans: Vec<(usize, usize, usize)> = Vec::new();
    let mut idx: usize = 0;
    while idx < attachments.len()
        invariant
            idx <= attachments.len(),
            b@ == buf@,
            atts == attachments@.map_values(|a: Attachment| a@),
            strictly_sorted(spans@),
            spans@ == sort_spans(spans_in_order(buf@, atts.take(idx as int))),
            spans@.to_set() == spans_in_order(buf@, atts.take(idx as int)).to_set(),
            spans@.len() == spans_in_order(buf@, atts.take(idx as int)).len(),
            forall|i: int| 0 <= i < spans@.len() ==> (#[trigger] spans@[i]).2 < idx,
        decreases attachments.len() - idx,
    {
        let token = chars_of(attachments[idx].token.as_str());
        assert(atts.take(idx + 1).drop_last() =~= atts.take(idx as int));
        assert(atts.take(idx + 1).last() == attachments@[idx as int]@);
        match find_seq(&b, &token) {
            Some(start) => {
                assert(occurs_at(b@, token@, start as int));
                assert(start + token.len() <= b.len());
                let end = start + token.len();
                proof {
                    lemma_first_occurrence(buf@, token@, start as int);
                    assert(!spans@.contains((start, end, idx))) by {
                        if spans@.contains((start, end, idx)) {
                            let k = choose|k: int| 0 <= k < spans@.len() && spans@[k] == (start, end, idx);
                            assert(spans@[k].2 < idx);
                        }
                    }
                }
                let ghost before = spans@;
                insert_sorted(&mut spans, (start, end, idx));
                proof {
                    assert forall|i: int| 0 <= i < spans@.len() implies (#[trigger] spans@[i]).2 < idx + 1 by {
                        assert(spans@.to_set().contains(spans@[i]));
                        if spans@[i] != (start, end, idx) {
                            assert(before.to_set().contains(spans@[i]));
                            let k = choose|k: int| 0 <= k < before.len() && before[k] == spans@[i];
                            assert(before[k].2 < idx);
                        }
                    }
                    let prev = spans_in_order(buf@, atts.take(idx as int));
                    assert(!prev.contains((start, end, idx))) by {
                        lemma_spans_idx(buf@, atts.take(idx as int));
                        if prev.contains((start, end, idx)) {
                            let k = choose|k: int| 0 <= k < prev.len() && prev[k] == (start, end, idx);
                            assert(prev[k].2 < idx);
                        }
                    }
                    lemma_push_to_set(prev, (start, end, idx));
                    assert(spans_in_order(buf@, atts.take(idx + 1)) == prev.push((start, end, idx)));
                    assert(prev.push((start, end, idx)).drop_last() =~= prev);
                }
            },
            None => {},
        }
        idx = idx + 1;
    }
    assert(atts.take(attachments.len() as int) =~= atts);
    spans
}

/// The first eight characters of an id (all of a shorter one).
pub open spec fn short_id_of(id: Seq<char>) -> Seq<char> {
    id.take(if id.len() < 8 { id.len() as int } else { 8 })
}

/// 8-char id prefix — unique enough in a picker while staying readable.
pub fn short_id(id: &str) -> (r: String)
    ensures
        r@ == short_id_of(id@),
{
    let v = chars_of(id);
    let n = if v.len() < 8 { v.len() } else { 8 };
    string_from_range(&v, 0, n)
}

/// One row of an ACP `session/list` answer.
pub struct SessionListItem {
    pub id: String,
    pub title: Option<String>,
    pub updated_at: Option<String>,
}

/// Why a `/resume` prefix did not pick a session.
pub enum ResumeMatchError {
    /// No session id starts with the prefix.
    NoMatch { prefix: String },
    /// Several ids start with the prefix and none equals it.
    Ambiguous { prefix: String, count: usize },
}

impl ResumeMatchError {
    /// The message the composer shows.
    pub fn message(&self) -> (r: String)
        ensures
            match self {
                ResumeMatchError::NoMatch { prefix } => r@ == "no session matches “"@ + prefix@ + "” — /resume lists them"@,
                ResumeMatchError::Ambiguous { prefix, count } => r@ == "“"@ + prefix@ + "” is ambiguous ("@
                    + crate::numfmt::decimal(*count as nat) + " matches) — /resume lists them"@,
            },
    {
        match self {
            ResumeMatchError::NoMatch { prefix } => {
                let a = crate::text::concat_str("no session matches “", prefix.as_str());
                crate::text::concat_str(a.as_str(), "” — /resume lists them")
            },
            ResumeMatchError::Ambiguous { prefix, count } => {
                let a = crate::text::concat_str("“", prefix.as_str());
                let b = crate::text::concat_str(a.as_str(), "” is ambiguous (");
                let n = crate::numfmt::format_decimal(*count as u64);
                let c = crate::text::concat_str(b.as_str(), n.as_str());
                crate::text::concat_str(c.as_str(), " matches) — /resume lists them")
            },
        }
    }
}

/// The ids among `sessions` that start with `prefix`, in order.
pub open spec fn prefixed(sessions: Seq<SessionListItem>, prefix: Seq<char>) -> Seq<Seq<char>>
    decreases sessions.len(),
{
    if sessions.len() == 0 {
        Seq::empty()
    } else {
        let rest = prefixed(sessions.drop_last(), prefix);
        if has_prefix(sessions.last().id@, prefix) {
            rest.push(sessions.last().id@)
        } else {
            rest
        }
    }
}

/// The session a `/resume` prefix picks: the only id starting with it, or —
/// among several — the one equal to it; otherwise the reason it picks none.
pub open spec fn resume_match(sessions: Seq<SessionListItem>, prefix: Seq<char>) -> Result<Seq<char>, (Seq<char>, nat)> {
    let m = prefixed(sessions, prefix);
    if m.len() == 1 {
        Ok(m[0])
    } else if m.len() == 0 {
        Err((prefix, 0))
    } else if m.contains(prefix) {
        Ok(prefix)
    } else {
        Err((prefix, m.len()))
    }
}

/// Resolve a `/resume` prefix against an ACP session list.
pub fn unique_session_list_match(sessions: &Vec<SessionListItem>, prefix: &str) -> (r: Result<String, ResumeMatchError>)
    ensures
        match r {
            Ok(id) => resume_match(sessions@, prefix@) == Ok::<Seq<char>, (Seq<char>, nat)>(id@),
            Err(ResumeMatchError::NoMatch { prefix: p }) => resume_match(sessions@, prefix@) == Err::<Seq<char>, (Seq<char>, nat)>((p@, 0nat)),
            Err(ResumeMatchError::Ambiguous { prefix: p, count }) => count >= 2 && resume_match(sessions@, prefix@) == Err::<Seq<char>, (Seq<char>, nat)>((p@, count as nat)),
        },
{
    let pv = chars_of(prefix);
    let mut matches: Vec<usize> = Vec::new();
    let mut i: usize = 0;
    while i < sessions.len()
        invariant
            i <= sessions.len(),
            pv@ == prefix@,
            matches.len() == prefixed(sessions@.take(i as int), prefix@).len(),
            forall|k: int| 0 <= k < matches.len() ==> (#[trigger] matches@[k]) < i && sessions@[matches@[k] as int].id@ == prefixed(sessions@.take(i as int), prefix@)[k],
        decreases sessions.len() - i,
    {
        assert(sessions@.take(i + 1).drop_last() =~= sessions@.take(i as int));
        let idv = chars_of(sessions[i].id.as_str());
        if crate::text::starts_with(&idv, &pv) {
            matches.push(i);
        }
        i = i + 1;
    }
    assert(sessions@.take(sessions.len() as int) =~= sessions@);
    let ghost m = prefixed(sessions@, prefix@);
    if matches.len() == 1 {
        return Ok(sessions[matches[0]].id.clone());
    }
    if matches.len() == 0 {
        return Err(ResumeMatchError::NoMatch { prefix: prefix.to_string() });
    }
    let mut k: usize = 0;
    while k < matches.len()
        invariant
            k <= matches.len(),
            matches.len() == m.len(),
            m == prefixed(sessions@, prefix@),
            m.len() >= 2,
            forall|j: int| 0 <= j < matches.len() ==> (#[trigger] matches@[j]) < sessions.len() && sessions@[matches@[j] as int].id@ == m[j],
            forall|j: int| 0 <= j < k ==> m[j] != prefix@,
        decreases matches.len() - k,
    {
        let id = &sessions[matches[k]].id;
        if crate::text::str_eq(id.as_str(), prefix) {
            assert(m.contains(prefix@)) by {
                assert(m[k as int] == prefix@);
            }
            return Ok(id.clone());
        }
        k = k + 1;
    }
    Err(ResumeMatchError::Ambiguous { prefix: prefix.to_string(), count: matches.len() })
}

/// A text block with nothing but whitespace.
pub open spec fn is_blank_text(b: BlockView) -> bool {
    b matches BlockView::Text(t) && is_blank(t)
}

pub open spec fn strip_lead(b: Seq<BlockView>) -> Seq<BlockView>
    decreases b.len(),
{
    if b.len() > 0 && is_blank_text(b[0]) {
        strip_lead(b.drop_first())
    } else {
        b
    }
}

pub open spec fn strip_trail(b: Seq<BlockView>) -> Seq<BlockView>
    decreases b.len(),
{
    if b.len() > 0 && is_blank_text(b.last()) {
        strip_trail(b.drop_last())
    } else {
        b
    }
}

pub open spec fn trim_block(b: BlockView) -> BlockView {
    match b {
        BlockView::Text(t) => BlockView::Text(trim(t)),
        other => other,
    }
}

/// The first block trimmed, then the last block trimmed.
pub open spec fn trim_ends(b: Seq<BlockView>) -> Seq<BlockView> {
    if b.len() == 0 {
        b
    } else {
        let b1 = b.update(0, trim_block(b[0]));
        b1.update(b1.len() - 1, trim_block(b1.last()))
    }
}

pub open spec fn is_empty_text(b: BlockView) -> bool {
    b matches BlockView::Text(t) && t.len() == 0
}

pub open spec fn drop_empty_texts(b: Seq<BlockView>) -> Seq<BlockView>
    decreases b.len(),
{
    if b.len() == 0 {
        b
    } else {
        let rest = drop_empty_texts(b.drop_last());
        if is_empty_text(b.last()) { rest } else { rest.push(b.last()) }
    }
}

/// Blank text at either end dropped, the outer texts trimmed, and empty
/// texts removed.
pub open spec fn tidy_blocks(b: Seq<BlockView>) -> Seq<BlockView> {
    drop_empty_texts(trim_ends(strip_trail(strip_lead(b))))
}

fn blank_text(b: &StagedBlock) -> (r: bool)
    ensures
        r == is_blank_text(b@),
{
    match b {
        StagedBlock::Text(t) => str_is_blank(t.as_str()),
        StagedBlock::Image(_) => false,
    }
}

fn trimmed_block(b: StagedBlock) -> (r: StagedBlock)
    ensures
        r@ == trim_block(b@),
{
    match b {
        StagedBlock::Text(t) => StagedBlock::Text(trim_string(t.as_str())),
        other => other,
    }
}

/// Drop blank text at both ends, trim the outer texts, and remove empty texts.
pub fn trim_staged_blocks(blocks: &mut Vec<StagedBlock>)
    ensures
        block_views(final(blocks)@) == tidy_blocks(block_views(old(blocks)@)),
{
    let ghost orig = block_views(blocks@);
    while blocks.len() > 0 && blank_text(&blocks[0])
        invariant
            strip_lead(orig) == strip_lead(block_views(blocks@)),
        decreases blocks.len(),
    {
        let ghost before = block_views(blocks@);
        let _ = blocks.remove(0);
        assert(block_views(blocks@) =~= before.drop_first());
    }
    let ghost lead = block_views(blocks@);
    assert(strip_lead(orig) == lead);
    while blocks.len() > 0 && blank_text(&blocks[blocks.len() - 1])
        invariant
            strip_trail(lead) == strip_trail(block_views(blocks@)),
        decreases blocks.len(),
    {
        let ghost before = block_views(blocks@);
        let _ = blocks.pop();
        assert(block_views(blocks@) =~= before.drop_last());
    }
    let ghost stripped = block_views(blocks@);
    assert(strip_trail(lead) == stripped);
    if blocks.len() > 0 {
        let first = blocks.remove(0);
        blocks.insert(0, trimmed_block(first));
        let n = blocks.len();
        let last = blocks.remove(n - 1);
        blocks.insert(n - 1, trimmed_block(last));
        assert(block_views(blocks@) =~= trim_ends(stripped));
    }
    let ghost ends = block_views(blocks@);
    assert(ends == trim_ends(stripped));
    let mut out: Vec<StagedBlock> = Vec::new();
    let mut taken: usize = 0;
    while blocks.len() > 0
        invariant
            taken + blocks.len() == ends.len(),
            ends.len() <= usize::MAX,
            block_views(blocks@) == ends.skip(taken as int),
            block_views(out@) == drop_empty_texts(ends.take(taken as int)),
        decreases blocks.len(),
    {
        let ghost before_blocks = block_views(blocks@);
        assert(before_blocks[0] == ends[taken as int]);
        let b = blocks.remove(0);
        let ghost bv = b@;
        assert(block_views(blocks@) =~= before_blocks.drop_first());
        assert(bv == before_blocks[0]);
        assert(bv == ends[taken as int]);
        assert(ends.take(taken + 1).drop_last() =~= ends.take(taken as int));
        let empty = match &b {
            StagedBlock::Text(t) => crate::text::char_len(t.as_str()) == 0,
            StagedBlock::Image(_) => false,
        };
        let ghost before = block_views(out@);
        if !empty {
            out.push(b);
            assert(block_views(out@) =~= before.push(bv));
        }
        assert(ends.skip(taken as int).drop_first() =~= ends.skip(taken + 1));
        taken = taken + 1;
    }
    assert(ends.take(taken as int) =~= ends);
    *blocks = out;
}

pub open spec fn min_int(a: int, b: int) -> int {
    if a < b { a } else { b }
}

/// The blocks a draft splits into along its sorted chip spans, starting at
/// character `ci`: the text before each chip (when there is any), the chip's
/// image (the first time its attachment comes up), and the text after the
/// last chip.
pub open spec fn split_pieces(
    chars: Seq<char>,
    atts: Seq<AttachmentView>,
    spans: Seq<(usize, usize, usize)>,
    ci: int,
    used: Set<usize>,
) -> Seq<BlockView>
    decreases spans.len(),
{
    if spans.len() == 0 {
        if ci < chars.len() { seq![BlockView::Text(chars.skip(ci))] } else { Seq::empty() }
    } else {
        let (st, en, idx) = spans[0];
        let hi = min_int(st as int, chars.len() as int);
        let pre = if st > ci && hi > ci { seq![BlockView::Text(chars.subrange(ci, hi))] } else { Seq::empty() };
        let img = if idx < atts.len() && !used.contains(idx) { seq![BlockView::Image(atts[idx as int])] } else { Seq::empty() };
        pre + img + split_pieces(chars, atts, spans.drop_first(), min_int(en as int, chars.len() as int), used.insert(idx))
    }
}

/// The images among blocks, in block order.
pub open spec fn images_of(b: Seq<BlockView>) -> Seq<AttachmentView>
    decreases b.len(),
{
    if b.len() == 0 {
        Seq::empty()
    } else {
        let rest = images_of(b.drop_last());
        match b.last() {
            BlockView::Image(a) => rest.push(a),
            BlockView::Text(_) => rest,
        }
    }
}

/// The attachments of chip spans, span by span.
pub open spec fn span_images(atts: Seq<AttachmentView>, spans: Seq<(usize, usize, usize)>) -> Seq<AttachmentView> {
    spans.map_values(|sp: (usize, usize, usize)| atts[sp.2 as int])
}

proof fn lemma_images_concat(a: Seq<BlockView>, b: Seq<BlockView>)
    ensures
        images_of(a + b) == images_of(a) + images_of(b),
    decreases b.len(),
{
    if b.len() == 0 {
        assert(a + b =~= a);
        assert(images_of(a) + images_of(b) =~= images_of(a));
    } else {
        assert((a + b).drop_last() =~= a + b.drop_last());
        assert((a + b).last() == b.last());
        lemma_images_concat(a, b.drop_last());
        match b.last() {
            BlockView::Image(x) => {
                assert(images_of(a) + images_of(b.drop_last()).push(x) =~= (images_of(a) + images_of(
                    b.drop_last(),
                )).push(x));
            },
            BlockView::Text(_) => {},
        }
    }
}

proof fn lemma_images_one(x: BlockView)
    ensures
        images_of(seq![x]) == (match x {
            BlockView::Image(a) => seq![a],
            BlockView::Text(_) => Seq::<AttachmentView>::empty(),
        }),
{
    assert(seq![x].drop_last() =~= Seq::<BlockView>::empty());
    assert(images_of(seq![x].drop_last()) == Seq::<AttachmentView>::empty());
    assert(seq![x].last() == x);
    match x {
        BlockView::Image(a) => {
            assert(Seq::<AttachmentView>::empty().push(a) =~= seq![a]);
        },
        BlockView::Text(_) => {},
    }
}

/// Splitting along spans of distinct, unused attachments yields one image
/// per span, in span order.
proof fn lemma_split_images(
    chars: Seq<char>,
    atts: Seq<AttachmentView>,
    spans: Seq<(usize, usize, usize)>,
    ci: int,
    used: Set<usize>,
)
    requires
        forall|i: int| 0 <= i < spans.len() ==> (#[trigger] spans[i]).2 < atts.len() && !used.contains(spans[i].2),
        forall|i: int, j: int| 0 <= i < j < spans.len() ==> (#[trigger] spans[i]).2 != (#[trigger] spans[j]).2,
    ensures
        images_of(split_pieces(chars, atts, spans, ci, used)) == span_images(atts, spans),
    decreases spans.len(),
{
    if spans.len() == 0 {
        if ci < chars.len() {
            lemma_images_one(BlockView::Text(chars.skip(ci)));
        }
        assert(span_images(atts, spans) =~= Seq::<AttachmentView>::empty());
    } else {
        let (st, en, idx) = spans[0];
        let hi = min_int(st as int, chars.len() as int);
        let pre = if st > ci && hi > ci { seq![BlockView::Text(chars.subrange(ci, hi))] } else { Seq::<BlockView>::empty() };
        let img = seq![BlockView::Image(atts[idx as int])];
        let tail = spans.drop_first();
        assert forall|i: int| 0 <= i < tail.len() implies (#[trigger] tail[i]).2 < atts.len() && !used.insert(idx).contains(tail[i].2) by {
            assert(tail[i] == spans[i + 1]);
            assert(spans[0].2 != spans[i + 1].2);
        }
        assert forall|i: int, j: int| 0 <= i < j < tail.len() implies (#[trigger] tail[i]).2 != (#[trigger] tail[j]).2 by {
            assert(tail[i] == spans[i + 1]);
            assert(tail[j] == spans[j + 1]);
        }
        let next = min_int(en as int, chars.len() as int);
        lemma_split_images(chars, atts, tail, next, used.insert(idx));
        let rest = split_pieces(chars, atts, tail, next, used.insert(idx));
        assert(split_pieces(chars, atts, spans, ci, used) == pre + img + rest);
        lemma_images_concat(pre + img, rest);
        lemma_images_concat(pre, img);
        lemma_images_one(BlockView::Image(atts[idx as int]));
        if st > ci && hi > ci {
            lemma_images_one(BlockView::Text(chars.subrange(ci, hi)));
        } else {
            assert(images_of(pre) =~= Seq::<AttachmentView>::empty());
        }
        assert(span_images(atts, spans) =~= seq![atts[idx as int]] + span_images(atts, tail));
        assert(images_of(pre) + images_of(img) =~= seq![atts[idx as int]]);
    }
}

proof fn lemma_images_drop_text_front(b: Seq<BlockView>)
    requires
        b.len() > 0,
        b[0] is Text,
    ensures
        images_of(b) == images_of(b.drop_first()),
{
    assert(b =~= seq![b[0]] + b.drop_first());
    lemma_images_concat(seq![b[0]], b.drop_first());
    lemma_images_one(b[0]);
    assert(Seq::<AttachmentView>::empty() + images_of(b.drop_first()) =~= images_of(b.drop_first()));
}

proof fn lemma_images_strip_lead(b: Seq<BlockView>)
    ensures
        images_of(strip_lead(b)) == images_of(b),
    decreases b.len(),
{
    if b.len() > 0 && is_blank_text(b[0]) {
        lemma_images_drop_text_front(b);
        lemma_images_strip_lead(b.drop_first());
    }
}

proof fn lemma_images_strip_trail(b: Seq<BlockView>)
    ensures
        images_of(strip_trail(b)) == images_of(b),
    decreases b.len(),
{
    if b.len() > 0 && is_blank_text(b.last()) {
        lemma_images_strip_trail(b.drop_last());
    }
}

proof fn lemma_images_trim_at(b: Seq<BlockView>, i: int)
    requires
        0 <= i < b.len(),
    ensures
        images_of(b.update(i, trim_block(b[i]))) == images_of(b),
    decreases b.len(),
{
    let u = b.update(i, trim_block(b[i]));
    if i == b.len() - 1 {
        assert(u.drop_last() =~= b.drop_last());
    } else {
        assert(u.drop_last() =~= b.drop_last().update(i, trim_block(b.drop_last()[i])));
        lemma_images_trim_at(b.drop_last(), i);
    }
}

proof fn lemma_images_drop_empty(b: Seq<BlockView>)
    ensures
        images_of(drop_empty_texts(b)) == images_of(b),
        forall|i: int| 0 <= i < drop_empty_texts(b).len() ==> !is_empty_text(#[trigger] drop_empty_texts(b)[i]),
    decreases b.len(),
{
    if b.len() > 0 {
        lemma_images_drop_empty(b.drop_last());
        let rest = drop_empty_texts(b.drop_last());
        if !is_empty_text(b.last()) {
            assert(rest.push(b.last()).drop_last() =~= rest);
            assert forall|i: int| 0 <= i < rest.push(b.last()).len() implies !is_empty_text(
                #[trigger] rest.push(b.last())[i],
            ) by {
                if i < rest.len() {
                    assert(rest.push(b.last())[i] == rest[i]);
                }
            }
        }
    }
}

/// Tidying keeps every image, in order, and leaves no empty text block.
proof fn lemma_tidy_images(b: Seq<BlockView>)
    ensures
        images_of(tidy_blocks(b)) == images_of(b),
        forall|i: int| 0 <= i < tidy_blocks(b).len() ==> !is_empty_text(#[trigger] tidy_blocks(b)[i]),
{
    lemma_images_strip_lead(b);
    let l = strip_lead(b);
    lemma_images_strip_trail(l);
    let t = strip_trail(l);
    if t.len() > 0 {
        lemma_images_trim_at(t, 0);
        let t1 = t.update(0, trim_block(t[0]));
        lemma_images_trim_at(t1, t1.len() - 1);
    }
    lemma_images_drop_empty(trim_ends(t));
}

/// The blocks a composer draft stages: split along its chips, then tidied.
pub open spec fn staged_blocks_of(buf: Seq<char>, atts: Seq<AttachmentView>) -> Seq<BlockView> {
    tidy_blocks(split_pieces(buf, atts, sort_spans(spans_in_order(buf, atts)), 0, Set::empty()))
}

/// Split a composer draft on inline image chips, preserving the reading
/// order of text and images. No text block comes out empty, and the images
/// that come out are exactly the attachments whose chip token occurs in the
/// draft, one each, in the order their chips stand in it.
pub fn split_draft_into_staged_blocks(buf: &str, attachments: Vec<Attachment>) -> (r: Vec<StagedBlock>)
    ensures
        block_views(r@) == staged_blocks_of(buf@, attachments@.map_values(|a: Attachment| a@)),
        forall|i: int| 0 <= i < r@.len() ==> !is_empty_text(#[trigger] block_views(r@)[i]),
        images_of(block_views(r@)) == span_images(
            attachments@.map_values(|a: Attachment| a@),
            sort_spans(spans_in_order(buf@, attachments@.map_values(|a: Attachment| a@))),
        ),
        strictly_sorted(sort_spans(spans_in_order(buf@, attachments@.map_values(|a: Attachment| a@)))),
        sort_spans(spans_in_order(buf@, attachments@.map_values(|a: Attachment| a@))).to_set()
            == spans_in_order(buf@, attachments@.map_values(|a: Attachment| a@)).to_set(),
{
    let ghost atts = attachments@.map_values(|a: Attachment| a@);
    let spans = token_spans_in(buf, &attachments);
    proof {
        let listed = spans_in_order(buf@, atts);
        assert(atts.len() == attachments.len());
        lemma_spans_idx(buf@, atts);
        assert forall|i: int| 0 <= i < spans@.len() implies (#[trigger] spans@[i]).2 < atts.len()
            && listed.contains(spans@[i]) by {
            assert(spans@.to_set().contains(spans@[i]));
            assert(listed.to_set().contains(spans@[i]));
            let k = choose|k: int| 0 <= k < listed.len() && listed[k] == spans@[i];
            assert(listed[k].2 < atts.len());
        }
        assert forall|i: int, j: int| 0 <= i < j < spans@.len() implies (#[trigger] spans@[i]).2
            != (#[trigger] spans@[j]).2 by {
            assert(listed.contains(spans@[i]));
            assert(listed.contains(spans@[j]));
            let a = choose|k: int| 0 <= k < listed.len() && listed[k] == spans@[i];
            let b = choose|k: int| 0 <= k < listed.len() && listed[k] == spans@[j];
            assert(span_lt(spans@[i], spans@[j]));
            if a < b {
                assert(listed[a].2 < listed[b].2);
            } else if b < a {
                assert(listed[b].2 < listed[a].2);
            }
        }
        lemma_split_images(buf@, atts, spans@, 0, Set::empty());
    }
    let chars = chars_of(buf);
    let mut used: Vec<bool> = Vec::new();
    let mut u: usize = 0;
    while u < attachments.len()
        invariant
            u <= attachments.len(),
            used@.len() == u,
            forall|k: int| 0 <= k < u ==> !used@[k],
        decreases attachments.len() - u,
    {
        used.push(false);
        u = u + 1;
    }
    let mut blocks: Vec<StagedBlock> = Vec::new();
    let mut char_i: usize = 0;
    let mut s: usize = 0;
    let ghost mut used_set: Set<usize> = Set::empty();
    assert(spans@.skip(0) =~= spans@);
    while s < spans.len()
        invariant
            s <= spans.len(),
            char_i <= chars.len(),
            chars@ == buf@,
            used@.len() == attachments.len(),
            atts == attachments@.map_values(|a: Attachment| a@),
            forall|k: int| 0 <= k < used@.len() ==> used@[k] == used_set.contains(k as usize),
            block_views(blocks@) + split_pieces(chars@, atts, spans@.skip(s as int), char_i as int, used_set)
                == split_pieces(chars@, atts, spans@, 0, Set::empty()),
        decreases spans.len() - s,
    {
        let (start, end, idx) = spans[s];
        let ghost rest = spans@.skip(s as int);
        assert(rest[0] == spans@[s as int]);
        assert(rest.drop_first() =~= spans@.skip(s + 1));
        let ghost before = block_views(blocks@);
        if start > char_i {
            let hi = if start < chars.len() { start } else { chars.len() };
            if hi > char_i {
                let text = string_from_range(&chars, char_i, hi);
                blocks.push(StagedBlock::Text(text));
            }
        }
        let ghost mid = block_views(blocks@);
        let ghost old_used = used_set;
        if idx < attachments.len() && !used[idx] {
            let att = attachments[idx].duplicate();
            blocks.push(StagedBlock::Image(att));
            used.set(idx, true);
        }
        proof {
            used_set = used_set.insert(idx);
            assert forall|k: int| 0 <= k < used@.len() implies used@[k] == used_set.contains(k as usize) by {
                if k == idx as int {
                } else {
                }
            }
            let hi = min_int(start as int, chars@.len() as int);
            let pre = if start > char_i && hi > char_i { seq![BlockView::Text(chars@.subrange(char_i as int, hi))] } else { Seq::<BlockView>::empty() };
            assert(mid =~= before + pre);
            let img = if idx < atts.len() && !old_used.contains(idx) { seq![BlockView::Image(atts[idx as int])] } else { Seq::<BlockView>::empty() };
            assert(block_views(blocks@) =~= before + pre + img);
            assert(split_pieces(chars@, atts, rest, char_i as int, old_used) == pre + img + split_pieces(chars@, atts, rest.drop_first(), min_int(end as int, chars@.len() as int), used_set));
        }
        assert(block_views(blocks@) + split_pieces(chars@, atts, spans@.skip(s + 1), min_int(end as int, chars@.len() as int), used_set)
            =~= before + split_pieces(chars@, atts, rest, char_i as int, old_used));
        char_i = if end < chars.len() { end } else { chars.len() };
        s = s + 1;
    }
    let ghost whole = split_pieces(chars@, atts, spans@, 0, Set::empty());
    assert(spans@.skip(s as int) =~= Seq::<(usize, usize, usize)>::empty());
    if char_i >= chars.len() {
        assert(block_views(blocks@) + Seq::<BlockView>::empty() =~= block_views(blocks@));
    }
    if char_i < chars.len() {
        let text = string_from_range(&chars, char_i, chars.len());
        let ghost before = block_views(blocks@);
        blocks.push(StagedBlock::Text(text));
        assert(chars@.subrange(char_i as int, chars@.len() as int) =~= chars@.skip(char_i as int));
        assert(block_views(blocks@) =~= before.push(BlockView::Text(chars@.skip(char_i as int))));
    }
    assert(block_views(blocks@) == whole);
    trim_staged_blocks(&mut blocks);
    proof {
        lemma_tidy_images(whole);
    }
    blocks
}

/// What a local session log tells a `/resume` row: the first real prompt,
/// the log's age as the UI words it, and its turn count.
pub struct LocalSession {
    pub preview: String,
    pub age: String,
    pub turns: u64,
}

/// The first ten bytes of a timestamp (its date), when they end on a
/// character boundary.
pub open spec fn date_part(stamp: Seq<char>) -> Option<Seq<char>> {
    let k = crate::shell::utf8_prefix_len(stamp, 10);
    if crate::shell::utf8_total(stamp.take(k)) == 10 {
        Some(stamp.take(k))
    } else {
        None
    }
}

/// The id prefix padded to eight columns (`{short:<8}`).
pub open spec fn padded_short(id: Seq<char>) -> Seq<char> {
    let short = id.take(if id.len() < 8 { id.len() as int } else { 8 });
    short + Seq::new((8 - short.len()) as nat, |i: int| ' ')
}

/// The meta line of a `/resume` row: the id prefix, then the local log's
/// age and turn count, or (for a session known only to the agent) the date
/// it was last updated, `?` when unknown.
pub open spec fn row_meta(id: Seq<char>, local: Option<(Seq<char>, u64)>, updated_at: Option<Seq<char>>) -> Seq<char> {
    match local {
        Some((age, turns)) => padded_short(id) + " · "@ + age + " · "@ + crate::numfmt::decimal(turns as nat)
            + " turn"@ + if turns == 1 { Seq::empty() } else { "s"@ },
        None => padded_short(id) + " · "@ + match updated_at {
            Some(u) => match date_part(u) {
                Some(d) => if d.len() > 0 { d } else { "?"@ },
                None => "?"@,
            },
            None => "?"@,
        },
    }
}

/// The label source of a `/resume` row: the title when not blank (trimmed),
/// else the local log's first prompt when not empty, else the id prefix.
pub open spec fn row_label(id: Seq<char>, title: Option<Seq<char>>, preview: Option<Seq<char>>) -> Seq<char> {
    let short = id.take(if id.len() < 8 { id.len() as int } else { 8 });
    match title {
        Some(t) => if crate::text::trim(t).len() > 0 {
            crate::text::trim(t)
        } else {
            match preview {
                Some(p) => if p.len() > 0 { p } else { short },
                None => short,
            }
        },
        None => match preview {
            Some(p) => if p.len() > 0 { p } else { short },
            None => short,
        },
    }
}

/// One `/resume` row. The label is the session's human handle, returned
/// whole (it is not clamped to the picker's label column here); the meta
/// line carries the id prefix plus age and turns (local logs) or the
/// updated date.
pub fn session_picker_row(id: &str, title: Option<&str>, local: Option<&LocalSession>, updated_at: Option<&str>) -> (r: PickerItem)
    ensures
        r.id@ == id@,
        r.label@ == row_label(id@, match title { Some(t) => Some(t@), None => None }, match local {
            Some(l) => Some(l.preview@),
            None => None,
        }),
        r.meta@ == row_meta(id@, match local {
            Some(l) => Some((l.age@, l.turns)),
            None => None,
        }, match updated_at {
            Some(u) => Some(u@),
            None => None,
        }),
        r.provider is None,
{
    let short = short_id(id);
    let trimmed: Option<String> = match title {
        Some(t) => {
            let tt = crate::text::trim_string(t);
            if crate::text::char_len(tt.as_str()) > 0 {
                Some(tt)
            } else {
                None
            }
        },
        None => None,
    };
    let label = match trimmed {
        Some(t) => t,
        None => match local {
            Some(l) => if crate::text::char_len(l.preview.as_str()) > 0 {
                l.preview.clone()
            } else {
                short.clone()
            },
            None => short.clone(),
        },
    };
    let mut head: Vec<char> = chars_of(short.as_str());
    let ghost short_v = head@;
    while head.len() < 8
        invariant
            short_v.len() <= 8,
            head@.len() <= 8,
            head@ == short_v + Seq::new((head@.len() - short_v.len()) as nat, |i: int| ' '),
            head@.len() >= short_v.len(),
        decreases 8 - head.len(),
    {
        let ghost before = head@;
        head.push(' ');
        assert(head@ =~= short_v + Seq::new((head@.len() - short_v.len()) as nat, |i: int| ' '));
    }
    let padded = crate::text::string_from(head.as_slice());
    assert(padded@ =~= padded_short(id@));
    let sep = crate::text::concat_str(padded.as_str(), " · ");
    let meta = match local {
        Some(l) => {
            let a = crate::text::concat_str(sep.as_str(), l.age.as_str());
            let b = crate::text::concat_str(a.as_str(), " · ");
            let n = crate::numfmt::format_decimal(l.turns);
            let c = crate::text::concat_str(b.as_str(), n.as_str());
            let d = crate::text::concat_str(c.as_str(), " turn");
            if l.turns == 1 {
                assert(d@ + Seq::<char>::empty() =~= d@);
                d
            } else {
                crate::text::concat_str(d.as_str(), "s")
            }
        },
        None => {
            let date: String = match updated_at {
                Some(u) => {
                    let uv = chars_of(u);
                    let (k, bytes) = crate::shell::utf8_cut(&uv, 10);
                    if bytes == 10 && k > 0 {
                        string_from_range(&uv, 0, k)
                    } else {
                        proof {
                            if bytes == 10 {
                                assert(uv@.take(k as int).len() == 0);
                                assert(crate::shell::utf8_total(uv@.take(0)) == 0);
                            }
                        }
                        "?".to_owned()
                    }
                },
                None => "?".to_owned(),
            };
            crate::text::concat_str(sep.as_str(), date.as_str())
        },
    };
    PickerItem { id: id.to_owned(), label, meta, provider: None }
}

/// The first span that covers char position `at`.
pub open spec fn first_covering(spans: Seq<(usize, usize, usize)>, at: int) -> Option<(usize, usize, usize)>
    decreases spans.len(),
{
    if spans.len() == 0 {
        None
    } else if spans[0].0 <= at < spans[0].1 {
        Some(spans[0])
    } else {
        first_covering(spans.drop_first(), at)
    }
}

/// The chip token a deletion at `cursor` cuts whole: the one covering the
/// char left of the cursor (backward) or at it (forward), if any.
pub fn token_to_cut(spans: &Vec<(usize, usize, usize)>, cursor: usize, backward: bool) -> (r: Option<(usize, usize, usize)>)
    ensures
        backward && cursor == 0 ==> r is None,
        !(backward && cursor == 0) ==> r == first_covering(spans@, if backward { cursor - 1 } else { cursor as int }),
{
    if backward && cursor == 0 {
        return None;
    }
    let probe = if backward { cursor - 1 } else { cursor };
    let mut i: usize = 0;
    assert(spans@.skip(0) =~= spans@);
    while i < spans.len()
        invariant
            i <= spans.len(),
            !(backward && cursor == 0),
            probe as int == (if backward { cursor - 1 } else { cursor as int }),
            first_covering(spans@, probe as int) == first_covering(spans@.skip(i as int), probe as int),
        decreases spans.len() - i,
    {
        let (start, end, idx) = spans[i];
        assert(spans@.skip(i as int)[0] == spans@[i as int]);
        assert(spans@.skip(i as int).drop_first() =~= spans@.skip(i + 1));
        if start <= probe && probe < end {
            return Some((start, end, idx));
        }
        i = i + 1;
    }
    assert(spans@.skip(i as int) =~= Seq::<(usize, usize, usize)>::empty());
    None
}

} // verus!
