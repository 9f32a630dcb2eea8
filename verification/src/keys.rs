//! Recovery of Kitty/CSI-u key reports that a terminal layer wrapped in
//! bracketed-paste markers: a paste made only of such reports is decoded
//! back into the key events it stands for.
use vstd::prelude::*;
use crate::text::{chars_of, index_of_char, split_on, split_chars};

verus! {

/// A key, as the terminal reports it.
#[derive(Clone, Copy, Debug, PartialEq, Eq, Structural)]
pub enum KeyCode {
    Esc,
    Enter,
    BackTab,
    Tab,
    Backspace,
    Char(char),
    Left,
    Right,
    Up,
    Down,
    Home,
    End,
    PageUp,
    PageDown,
    Delete,
    Insert,
    F(u8),
    /// Any other key (media, modifier-only and lock keys, `Null`).
    Other,
}

/// Press, auto-repeat or release.
#[derive(Clone, Copy, Debug, PartialEq, Eq, Structural)]
pub enum KeyEventKind {
    Press,
    Repeat,
    Release,
}

/// Modifier bits of a key event (the terminal library's layout).
pub const SHIFT: u8 = 0b0000_0001;
pub const CONTROL: u8 = 0b0000_0010;
pub const ALT: u8 = 0b0000_0100;
pub const SUPER: u8 = 0b0000_1000;
pub const HYPER: u8 = 0b0001_0000;
pub const META: u8 = 0b0010_0000;

/// A decoded key event.
#[derive(Clone, Copy, Debug, PartialEq, Eq, Structural)]
pub struct KeyEvent {
    pub code: KeyCode,
    pub modifiers: u8,
    pub kind: KeyEventKind,
}

pub open spec fn digit_val(c: char) -> nat {
    ((c as u32) - 48) as nat
}

pub open spec fn dec_value(d: Seq<char>) -> nat
    decreases d.len(),
{
    if d.len() == 0 { 0 } else { dec_value(d.drop_last()) * 10 + digit_val(d.last()) }
}

pub open spec fn dec_digits(d: Seq<char>) -> bool {
    forall|i: int| 0 <= i < d.len() ==> '0' <= #[trigger] d[i] <= '9'
}

/// `str::parse::<u32>`: an optional `+`, then one or more decimal digits,
/// at most `u32::MAX`.
pub open spec fn parse_u32(s: Seq<char>) -> Option<u32> {
    let d = if s.len() > 0 && s[0] == '+' { s.skip(1) } else { s };
    if d.len() > 0 && dec_digits(d) && dec_value(d) <= u32::MAX {
        Some(dec_value(d) as u32)
    } else {
        None
    }
}

pub fn parse_u32_chars(s: &Vec<char>) -> (r: Option<u32>)
    ensures
        r == parse_u32(s@),
{
    let start: usize = if s.len() > 0 && s[0] == '+' { 1 } else { 0 };
    let ghost d = s@.skip(start as int);
    assert(s@.skip(0) =~= s@);
    if start == s.len() {
        return None;
    }
    let mut v: u64 = 0;
    let mut i = start;
    while i < s.len()
        invariant
            start <= i <= s.len(),
            start < s.len(),
            start == (if s@.len() > 0 && s@[0] == '+' { 1usize } else { 0usize }),
            d == s@.skip(start as int),
            forall|k: int| start <= k < i ==> '0' <= #[trigger] s@[k] <= '9',
            v == dec_value(d.take(i - start)),
            v <= u32::MAX,
        decreases s.len() - i,
    {
        let c = s[i];
        if c < '0' || c > '9' {
            assert(!dec_digits(d)) by {
                assert(d[i - start] == c);
            }
            return None;
        }
        assert(d.take(i - start + 1).drop_last() =~= d.take(i - start));
        let next = v * 10 + ((c as u32 - 48) as u64);
        if next > 0xffff_ffff {
            proof {
                assert forall|k: int| 0 <= k < i - start + 1 implies '0' <= #[trigger] d[k] <= '9' by {
                    assert(d[k] == s@[k + start]);
                }
                assert(d.take(i - start + 1).last() == c);
                assert(dec_value(d.take(i - start + 1)) == next);
                lemma_dec_prefix(d, i - start + 1);
                assert(s@.skip(0) =~= s@);
            }
            return None;
        }
        v = next;
        i = i + 1;
    }
    assert(d.take(s.len() - start) =~= d);
    assert(dec_digits(d)) by {
        assert forall|k: int| 0 <= k < d.len() implies '0' <= #[trigger] d[k] <= '9' by {
            assert(d[k] == s@[k + start]);
        }
    }
    Some(v as u32)
}

/// An unsigned decimal (`str::parse` of an unsigned type): an optional
/// `+`, then one or more decimal digits, at most `max`.
pub open spec fn parse_decimal(s: Seq<char>, max: nat) -> Option<nat> {
    let d = if s.len() > 0 && s[0] == '+' { s.skip(1) } else { s };
    if d.len() > 0 && dec_digits(d) && dec_value(d) <= max {
        Some(dec_value(d))
    } else {
        None
    }
}

/// Parse an unsigned decimal no larger than `max`.
pub fn parse_decimal_chars(s: &Vec<char>, max: u64) -> (r: Option<u64>)
    ensures
        match r {
            Some(v) => parse_decimal(s@, max as nat) == Some(v as nat),
            None => parse_decimal(s@, max as nat) is None,
        },
{
    let start: usize = if s.len() > 0 && s[0] == '+' { 1 } else { 0 };
    let ghost d = s@.skip(start as int);
    assert(s@.skip(0) =~= s@);
    if start == s.len() {
        return None;
    }
    let mut v: u64 = 0;
    let mut i = start;
    while i < s.len()
        invariant
            start <= i <= s.len(),
            start < s.len(),
            start == (if s@.len() > 0 && s@[0] == '+' { 1usize } else { 0usize }),
            d == s@.skip(start as int),
            forall|k: int| start <= k < i ==> '0' <= #[trigger] s@[k] <= '9',
            v == dec_value(d.take(i - start)),
            v <= max,
        decreases s.len() - i,
    {
        let c = s[i];
        if c < '0' || c > '9' {
            assert(!dec_digits(d)) by {
                assert(d[i - start] == c);
            }
            return None;
        }
        assert(d.take(i - start + 1).drop_last() =~= d.take(i - start));
        let digit = (c as u32 - 48) as u64;
        let too_big = if digit > max {
            true
        } else {
            v > (max - digit) / 10
        };
        if too_big {
            proof {
                assert(v * 10 + digit > max) by (nonlinear_arith)
                    requires
                        digit > max || (digit <= max && v > (max - digit) / 10),
                        0 <= digit <= 9,
                ;
                assert forall|k: int| 0 <= k < i - start + 1 implies '0' <= #[trigger] d[k] <= '9' by {
                    assert(d[k] == s@[k + start]);
                }
                assert(d.take(i - start + 1).last() == c);
                assert(dec_value(d.take(i - start + 1)) == v * 10 + digit);
                lemma_dec_prefix(d, i - start + 1);
                assert(s@.skip(0) =~= s@);
            }
            return None;
        }
        assert(v * 10 + digit <= max) by (nonlinear_arith)
            requires
                digit <= max,
                v <= (max - digit) / 10,
        ;
        v = v * 10 + digit;
        i = i + 1;
    }
    assert(d.take(s.len() - start) =~= d);
    assert(dec_digits(d)) by {
        assert forall|k: int| 0 <= k < d.len() implies '0' <= #[trigger] d[k] <= '9' by {
            assert(d[k] == s@[k + start]);
        }
    }
    Some(v)
}

proof fn lemma_dec_prefix(d: Seq<char>, i: int)
    requires
        0 <= i <= d.len(),
        forall|k: int| 0 <= k < i ==> '0' <= #[trigger] d[k] <= '9',
    ensures
        dec_digits(d) ==> dec_value(d.take(i)) <= dec_value(d),
    decreases d.len() - i,
{
    if i < d.len() {
        if dec_digits(d) {
            lemma_dec_prefix(d, i + 1);
            assert(d.take(i + 1).drop_last() =~= d.take(i));
            assert(dec_value(d.take(i + 1)) >= dec_value(d.take(i))) by (nonlinear_arith)
                requires
                    dec_value(d.take(i + 1)) == dec_value(d.take(i)) * 10 + digit_val(d[i]),
            ;
        }
    } else {
        assert(d.take(i) =~= d);
    }
}

/// Whether `u` is a Unicode scalar value.
pub open spec fn is_scalar(u: u32) -> bool {
    u <= 0x10ffff && !(0xd800 <= u <= 0xdfff)
}

/// `char::from_u32`: the contract states what the documentation gives —
/// `Some` exactly for Unicode scalar values, holding that code point.
#[verifier::external_body]
fn char_from_u32(u: u32) -> (r: Option<char>)
    ensures
        r is Some <==> is_scalar(u),
        r matches Some(c) ==> c as u32 == u,
{
    char::from_u32(u)
}

/// Modifier bits from a CSI-u modifier mask (already decremented):
/// shift, alt, ctrl, super, hyper, meta in mask order.
pub open spec fn mods_of(mask: u32) -> u8 {
    (if mask & 1 != 0 { SHIFT } else { 0u8 }) | (if mask & 2 != 0 { ALT } else { 0u8 }) | (if mask & 4
        != 0 { CONTROL } else { 0u8 }) | (if mask & 8 != 0 { SUPER } else { 0u8 }) | (if mask & 16 != 0 {
        HYPER
    } else {
        0u8
    }) | (if mask & 32 != 0 { META } else { 0u8 })
}

fn modifiers_from(mask: u32) -> (m: u8)
    ensures
        m == mods_of(mask),
{
    (if mask & 1 != 0 { SHIFT } else { 0u8 }) | (if mask & 2 != 0 { ALT } else { 0u8 }) | (if mask & 4
        != 0 { CONTROL } else { 0u8 }) | (if mask & 8 != 0 { SUPER } else { 0u8 }) | (if mask & 16 != 0 {
        HYPER
    } else {
        0u8
    }) | (if mask & 32 != 0 { META } else { 0u8 })
}

/// The event kind a kind field names: absent or `1` press, `2` repeat, `3`
/// release.
pub open spec fn kind_of(parts: Seq<Seq<char>>) -> Option<KeyEventKind> {
    if parts.len() == 1 || parts[1] == seq!['1'] {
        Some(KeyEventKind::Press)
    } else if parts[1] == seq!['2'] {
        Some(KeyEventKind::Repeat)
    } else if parts[1] == seq!['3'] {
        Some(KeyEventKind::Release)
    } else {
        None
    }
}

/// The key code a character stands for.
pub open spec fn code_of(ch: char, mods: u8) -> KeyCode {
    if ch == '\u{1b}' {
        KeyCode::Esc
    } else if ch == '\r' {
        KeyCode::Enter
    } else if ch == '\t' && mods & SHIFT != 0 {
        KeyCode::BackTab
    } else if ch == '\t' {
        KeyCode::Tab
    } else if ch == '\u{7f}' {
        KeyCode::Backspace
    } else {
        KeyCode::Char(ch)
    }
}

/// Decode the parameters of one `CSI … u` report: `codepoint[:…][;mask[:kind]]`.
/// Any other trailing field is refused rather than guessed.
pub open spec fn csi_u_key(params: Seq<char>) -> Option<KeyEvent> {
    let fields = split_on(params, ';');
    let cp = parse_u32(split_on(fields[0], ':')[0]);
    if cp is None || fields.len() > 2 {
        None
    } else {
        let mk: Option<(u32, KeyEventKind)> = if fields.len() == 2 {
            let parts = split_on(fields[1], ':');
            match parse_u32(parts[0]) {
                Some(m) => if m == 0 || parts.len() > 2 {
                    None
                } else {
                    match kind_of(parts) {
                        Some(k) => Some(((m - 1) as u32, k)),
                        None => None,
                    }
                },
                None => None,
            }
        } else {
            Some((0u32, KeyEventKind::Press))
        };
        match mk {
            Some((mask, kind)) => if is_scalar(cp->0) {
                let mods = mods_of(mask);
                Some(KeyEvent { code: code_of(cp->0 as char, mods), modifiers: mods, kind })
            } else {
                None
            },
            None => None,
        }
    }
}

fn is_lit(v: &Vec<char>, c: char) -> (b: bool)
    ensures
        b == (v@ == seq![c]),
{
    let r = v.len() == 1 && v[0] == c;
    proof {
        if v.len() == 1 && v[0] == c {
            assert(v@ =~= seq![c]);
        }
    }
    r
}

/// Decode the parameters of one CSI-u key report.
pub fn decode_csi_u_key(params: &Vec<char>) -> (r: Option<KeyEvent>)
    ensures
        r == csi_u_key(params@),
{
    let fields = split_chars(params, ';');
    let ghost fv = fields@.map_values(|p: Vec<char>| p@);
    assert(fv[0] == fields@[0]@);
    let first = split_chars(&fields[0], ':');
    assert(first@.map_values(|p: Vec<char>| p@)[0] == first@[0]@);
    let codepoint = match parse_u32_chars(&first[0]) {
        Some(c) => c,
        None => {
            return None;
        },
    };
    if fields.len() > 2 {
        return None;
    }
    let (mask, kind) = if fields.len() == 2 {
        assert(fv[1] == fields@[1]@);
        let parts = split_chars(&fields[1], ':');
        let ghost pv = parts@.map_values(|p: Vec<char>| p@);
        assert(pv[0] == parts@[0]@);
        let m = match parse_u32_chars(&parts[0]) {
            Some(m) => m,
            None => {
                return None;
            },
        };
        if m == 0 || parts.len() > 2 {
            return None;
        }
        let kind = if parts.len() == 1 {
            KeyEventKind::Press
        } else {
            assert(pv[1] == parts@[1]@);
            if is_lit(&parts[1], '1') {
                KeyEventKind::Press
            } else if is_lit(&parts[1], '2') {
                KeyEventKind::Repeat
            } else if is_lit(&parts[1], '3') {
                KeyEventKind::Release
            } else {
                return None;
            }
        };
        (m - 1, kind)
    } else {
        (0u32, KeyEventKind::Press)
    };
    let modifiers = modifiers_from(mask);
    let ch = match char_from_u32(codepoint) {
        Some(c) => c,
        None => {
            return None;
        },
    };
    let code = if ch == '\u{1b}' {
        KeyCode::Esc
    } else if ch == '\r' {
        KeyCode::Enter
    } else if ch == '\t' && modifiers & SHIFT != 0 {
        KeyCode::BackTab
    } else if ch == '\t' {
        KeyCode::Tab
    } else if ch == '\u{7f}' {
        KeyCode::Backspace
    } else {
        KeyCode::Char(ch)
    };
    proof {
        vstd::utf8::char_u32_cast(ch, codepoint);
    }
    Some(KeyEvent { code, modifiers, kind })
}

/// Length of the longest prefix of `e` in which `c` does not occur.
pub open spec fn run_without(e: Seq<char>, c: char) -> nat
    decreases e.len(),
{
    if e.len() == 0 || e[0] == c {
        0
    } else {
        1 + run_without(e.skip(1), c)
    }
}

proof fn lemma_run_without(e: Seq<char>, c: char)
    ensures
        run_without(e, c) <= e.len(),
        forall|j: int| 0 <= j < run_without(e, c) ==> e[j] != c,
        run_without(e, c) < e.len() ==> e[run_without(e, c) as int] == c,
    decreases e.len(),
{
    if e.len() > 0 && e[0] != c {
        lemma_run_without(e.skip(1), c);
        assert forall|j: int| 0 <= j < run_without(e, c) implies e[j] != c by {
            if j > 0 {
                assert(e[j] == e.skip(1)[j - 1]);
            }
        }
        if run_without(e, c) < e.len() {
            assert(e[run_without(e, c) as int] == e.skip(1)[run_without(e.skip(1), c) as int]);
        }
    }
}

/// One `ESC [ params u` report at the front of `s`: the key it stands for
/// and how many characters it takes.
pub open spec fn leaked_step(s: Seq<char>) -> Option<(KeyEvent, int)> {
    if s.len() < 2 || s[0] != '\u{1b}' || s[1] != '[' {
        None
    } else {
        let e = s.skip(2);
        let k = run_without(e, 'u');
        if k < e.len() {
            match csi_u_key(e.take(k as int)) {
                Some(key) => Some((key, k + 3int)),
                None => None,
            }
        } else {
            None
        }
    }
}

/// The key events a pasted text stands for, when the whole text is made of
/// `ESC [ params u` reports.
pub open spec fn leaked_keys(s: Seq<char>) -> Option<Seq<KeyEvent>>
    decreases s.len(),
{
    if s.len() == 0 {
        Some(Seq::empty())
    } else {
        match leaked_step(s) {
            Some((key, n)) => if 0 < n <= s.len() {
                match leaked_keys(s.skip(n)) {
                    Some(rest) => Some(seq![key] + rest),
                    None => None,
                }
            } else {
                None
            },
            None => None,
        }
    }
}

/// The report at position `pos` of `s`, decoded.
fn report_at(s: &Vec<char>, pos: usize) -> (r: Option<(KeyEvent, usize)>)
    requires
        pos < s.len(),
    ensures
        match r {
            Some((key, n)) => leaked_step(s@.skip(pos as int)) == Some((key, n as int)) && 0 < n
                <= s.len() - pos,
            None => leaked_step(s@.skip(pos as int)) is None,
        },
{
    let ghost cur = s@.skip(pos as int);
    if s.len() - pos < 2 || s[pos] != '\u{1b}' || s[pos + 1] != '[' {
        return None;
    }
    assert(cur[0] == s@[pos as int] && cur[1] == s@[pos + 1]);
    let mut e: Vec<char> = Vec::new();
    let mut j = pos + 2;
    while j < s.len()
        invariant
            pos + 2 <= j <= s.len(),
            e@ == s@.subrange(pos + 2, j as int),
        decreases s.len() - j,
    {
        e.push(s[j]);
        assert(s@.subrange(pos + 2, j + 1) =~= s@.subrange(pos + 2, j as int).push(s@[j as int]));
        j = j + 1;
    }
    assert(e@ =~= cur.skip(2));
    proof {
        lemma_run_without(e@, 'u');
    }
    let end = match index_of_char(&e, 'u') {
        Some(end) => end,
        None => {
            proof {
                if run_without(e@, 'u') < e@.len() {
                    assert(e@.contains('u'));
                }
            }
            return None;
        },
    };
    proof {
        let k = run_without(e@, 'u') as int;
        if k < end {
            assert(e@[k] != 'u');
        }
        if end < k {
            assert(e@[end as int] != 'u');
        }
    }
    let mut head: Vec<char> = Vec::new();
    let mut q: usize = 0;
    while q < end
        invariant
            q <= end < e.len(),
            head@ == e@.take(q as int),
        decreases end - q,
    {
        head.push(e[q]);
        assert(e@.take(q + 1) =~= e@.take(q as int).push(e@[q as int]));
        q = q + 1;
    }
    match decode_csi_u_key(&head) {
        Some(key) => Some((key, end + 3)),
        None => None,
    }
}

/// Some terminal layers wrap Kitty/CSI-u key reports in bracketed-paste
/// markers; recover the keys only when the entire payload is such reports.
pub fn decode_leaked_csi_u_keys(text: &str) -> (r: Option<Vec<KeyEvent>>)
    ensures
        match r {
            Some(keys) => text@.len() > 0 && leaked_keys(text@) == Some(keys@),
            None => text@.len() == 0 || leaked_keys(text@) is None,
        },
{
    let s = chars_of(text);
    if s.len() == 0 {
        return None;
    }
    let mut keys: Vec<KeyEvent> = Vec::new();
    let mut pos: usize = 0;
    assert(s@.skip(0) =~= s@);
    while pos < s.len()
        invariant
            pos <= s.len(),
            s@ == text@,
            match leaked_keys(s@.skip(pos as int)) {
                Some(rest) => leaked_keys(s@) == Some(keys@ + rest),
                None => leaked_keys(s@) is None,
            },
        decreases s.len() - pos,
    {
        let ghost cur = s@.skip(pos as int);
        let (key, n) = match report_at(&s, pos) {
            Some(found) => found,
            None => {
                return None;
            },
        };
        proof {
            assert(cur.skip(n as int) =~= s@.skip(pos + n));
            match leaked_keys(s@.skip(pos + n)) {
                Some(rest) => {
                    assert(keys@.push(key) + rest =~= keys@ + (seq![key] + rest));
                },
                None => {},
            }
        }
        keys.push(key);
        pos = pos + n;
    }
    assert(s@.skip(pos as int) =~= Seq::<char>::empty());
    assert(keys@ + Seq::<KeyEvent>::empty() =~= keys@);
    Some(keys)
}

} // verus!
