//! The session's local `!` shell: command quoting, the status marker the
//! shell prints after each command, and the output shown for it.
use vstd::prelude::*;
use crate::text::{chars_of, string_from, concat_str};
use crate::numfmt::{decimal, format_decimal};

verus! {

/// `'` escaped for a single-quoted `sh` word: close the quote, emit a
/// double-quoted `'`, reopen.
pub open spec fn quote_escape() -> Seq<char> {
    seq!['\'', '\\', '"', '\'', '\\', '"', '\'']
}

/// Every `'` of `s` replaced by [`quote_escape`].
pub open spec fn escape_quotes(s: Seq<char>) -> Seq<char>
    decreases s.len(),
{
    if s.len() == 0 {
        s
    } else if s.last() == '\'' {
        escape_quotes(s.drop_last()) + quote_escape()
    } else {
        escape_quotes(s.drop_last()).push(s.last())
    }
}

/// `value` as a single-quoted shell word.
pub fn shell_quote(value: &str) -> (r: String)
    ensures
        r@ == seq!['\''] + escape_quotes(value@) + seq!['\''],
{
    let v = chars_of(value);
    let mut out: Vec<char> = Vec::new();
    out.push('\'');
    let mut i: usize = 0;
    while i < v.len()
        invariant
            i <= v.len(),
            v@ == value@,
            out@ == seq!['\''] + escape_quotes(v@.take(i as int)),
        decreases v.len() - i,
    {
        let c = v[i];
        assert(v@.take(i + 1).drop_last() =~= v@.take(i as int));
        if c == '\'' {
            out.push('\'');
            out.push('\\');
            out.push('"');
            out.push('\'');
            out.push('\\');
            out.push('"');
            out.push('\'');
            assert(out@ =~= seq!['\''] + escape_quotes(v@.take(i + 1)));
        } else {
            out.push(c);
            assert(out@ =~= seq!['\''] + escape_quotes(v@.take(i + 1)));
        }
        i = i + 1;
    }
    out.push('\'');
    assert(v@.take(v.len() as int) =~= v@);
    string_from(out.as_slice())
}

/// `needle` occurs in `haystack` at byte `at`.
pub open spec fn bytes_at(haystack: Seq<u8>, needle: Seq<u8>, at: int) -> bool {
    0 <= at && at + needle.len() <= haystack.len() && haystack.subrange(at, at + needle.len()) == needle
}

/// The first byte offset where `needle` occurs (`windows(..).position`).
pub fn find_bytes(haystack: &Vec<u8>, needle: &Vec<u8>) -> (r: Option<usize>)
    requires
        needle.len() > 0,
    ensures
        match r {
            Some(at) => bytes_at(haystack@, needle@, at as int) && forall|b: int|
                0 <= b < at ==> !bytes_at(haystack@, needle@, b),
            None => forall|b: int| !bytes_at(haystack@, needle@, b),
        },
{
    if needle.len() > haystack.len() {
        return None;
    }
    let last = haystack.len() - needle.len();
    let mut at: usize = 0;
    while at <= last
        invariant
            last == haystack.len() - needle.len(),
            at <= last + 1,
            forall|b: int| 0 <= b < at ==> !bytes_at(haystack@, needle@, b),
        decreases last + 1 - at,
    {
        let mut k: usize = 0;
        let mut same = true;
        while k < needle.len()
            invariant
                k <= needle.len(),
                at + needle.len() <= haystack.len(),
                same ==> forall|j: int| 0 <= j < k ==> haystack@[at + j] == needle@[j],
                !same ==> !bytes_at(haystack@, needle@, at as int),
            decreases needle.len() - k,
        {
            if same && haystack[at + k] != needle[k] {
                same = false;
                assert(haystack@.subrange(at as int, at + needle.len())[k as int] != needle@[k as int]);
            }
            k = k + 1;
        }
        if same {
            assert(haystack@.subrange(at as int, at + needle.len()) =~= needle@);
            return Some(at);
        }
        if at == last {
            return None;
        }
        at = at + 1;
    }
    None
}

/// The numeric value of ASCII decimal digits.
pub open spec fn digits_value(d: Seq<u8>) -> nat
    decreases d.len(),
{
    if d.len() == 0 {
        0
    } else {
        digits_value(d.drop_last()) * 10 + (d.last() - 48) as nat
    }
}

pub open spec fn all_digits(d: Seq<u8>) -> bool {
    forall|i: int| 0 <= i < d.len() ==> 48 <= #[trigger] d[i] <= 57
}

/// `str::parse::<i32>` over ASCII bytes: an optional `+` or `-`, then one or
/// more decimal digits, in range.
pub open spec fn parse_i32(b: Seq<u8>) -> Option<i32> {
    let neg = b.len() > 0 && b[0] == 45;
    let digits = if b.len() > 0 && (b[0] == 45 || b[0] == 43) { b.skip(1) } else { b };
    if digits.len() == 0 || !all_digits(digits) {
        None
    } else {
        let v: int = if neg { -(digits_value(digits) as int) } else { digits_value(digits) as int };
        if i32::MIN <= v <= i32::MAX { Some(v as i32) } else { None }
    }
}

proof fn lemma_digits_grow(d: Seq<u8>, i: int)
    requires
        0 <= i <= d.len(),
        all_digits(d),
    ensures
        digits_value(d.take(i)) <= digits_value(d),
    decreases d.len() - i,
{
    if i < d.len() {
        lemma_digits_grow(d, i + 1);
        assert(d.take(i + 1).drop_last() =~= d.take(i));
    } else {
        assert(d.take(i) =~= d);
    }
}

/// The value of the digits `b[start..]`, saturated just past `2^31`; `None`
/// when they are empty or hold a non-digit.
fn parse_digits(b: &[u8], start: usize) -> (r: Option<u64>)
    requires
        start <= b.len(),
    ensures
        match r {
            None => b@.skip(start as int).len() == 0 || !all_digits(b@.skip(start as int)),
            Some(v) => b@.skip(start as int).len() > 0 && all_digits(b@.skip(start as int)) && (if digits_value(b@.skip(start as int)) <= 0x8000_0000 {
                v == digits_value(b@.skip(start as int))
            } else {
                v == 0x8000_0001
            }),
        },
{
    let n = b.len();
    let ghost digits = b@.skip(start as int);
    if start == n {
        return None;
    }
    let mut value: u64 = 0;
    let mut i = start;
    let mut big = false;
    while i < n
        invariant
            start <= i <= n == b.len(),
            digits == b@.skip(start as int),
            forall|k: int| start <= k < i ==> 48 <= #[trigger] b@[k] <= 57,
            !big ==> value == digits_value(digits.take(i - start)) && value <= 0x8000_0000,
            big ==> digits_value(digits.take(i - start)) > 0x8000_0000,
        decreases n - i,
    {
        let c = b[i];
        if c < 48 || c > 57 {
            assert(!all_digits(digits)) by {
                assert(digits[i - start] == c);
            }
            return None;
        }
        assert(digits.take(i - start + 1).drop_last() =~= digits.take(i - start));
        assert(digits.take(i - start + 1).last() == c);
        if !big {
            let next = value * 10 + ((c - 48) as u64);
            if next > 0x8000_0000 {
                big = true;
            } else {
                value = next;
            }
        } else {
            assert(digits_value(digits.take(i - start + 1)) >= digits_value(digits.take(i - start))) by (nonlinear_arith)
                requires
                    digits_value(digits.take(i - start + 1)) == digits_value(digits.take(i - start)) * 10 + (c - 48) as nat,
            ;
        }
        i = i + 1;
    }
    assert(digits.take(n - start) =~= digits);
    assert(all_digits(digits)) by {
        assert forall|k: int| 0 <= k < digits.len() implies 48 <= #[trigger] digits[k] <= 57 by {
            assert(digits[k] == b@[k + start]);
        }
    }
    if big {
        Some(0x8000_0001)
    } else {
        Some(value)
    }
}

/// Parse a shell exit status.
pub fn parse_status(b: &[u8]) -> (r: Option<i32>)
    ensures
        r == parse_i32(b@),
{
    if b.len() == 0 {
        return None;
    }
    let neg = b[0] == 45;
    let start: usize = if b[0] == 45 || b[0] == 43 { 1 } else { 0 };
    assert(b@.skip(0) =~= b@);
    let value = match parse_digits(b, start) {
        Some(v) => v,
        None => {
            return None;
        },
    };
    if neg {
        if value == 0x8000_0000 {
            Some(i32::MIN)
        } else if value < 0x8000_0000 {
            Some(-(value as i32))
        } else {
            None
        }
    } else if value <= 0x7fff_ffff {
        Some(value as i32)
    } else {
        None
    }
}

/// Where a command's status marker ends what it printed: the marker's first
/// offset and the status parsed from the bytes between the marker and the
/// next `0x1f`; `None` while the marker or its terminator has not arrived.
pub open spec fn marker_scan(captured: Seq<u8>, marker: Seq<u8>) -> Option<(int, Option<i32>)> {
    if exists|at: int| bytes_at(captured, marker, at) {
        let start = choose|at: int| bytes_at(captured, marker, at) && forall|b: int| 0 <= b < at ==> !bytes_at(captured, marker, b);
        let after = captured.skip(start + marker.len());
        if after.contains(0x1f) {
            let len = choose|k: int| 0 <= k < after.len() && after[k] == 0x1f && forall|j: int| 0 <= j < k ==> after[j] != 0x1f;
            Some((start, parse_i32(after.take(len))))
        } else {
            None
        }
    } else {
        None
    }
}

/// Scan the captured shell output for the command's status marker.
pub fn scan_marker(captured: &Vec<u8>, marker: &Vec<u8>) -> (r: Option<(usize, Option<i32>)>)
    requires
        marker.len() > 0,
    ensures
        match r {
            Some((start, status)) => marker_scan(captured@, marker@) == Some((start as int, status)),
            None => marker_scan(captured@, marker@) is None,
        },
{
    let start = match find_bytes(captured, marker) {
        Some(s) => s,
        None => {
            return None;
        },
    };
    proof {
        let c = choose|at: int| bytes_at(captured@, marker@, at) && forall|b: int| 0 <= b < at ==> !bytes_at(captured@, marker@, b);
        if c < start { assert(!bytes_at(captured@, marker@, c)); }
        if start < c { assert(!bytes_at(captured@, marker@, start as int)); }
    }
    assert(bytes_at(captured@, marker@, start as int));
    assert(start + marker@.len() <= captured@.len());
    assert(start + marker.len() <= captured.len());
    let status_start = start + marker.len();
    let ghost after = captured@.skip(status_start as int);
    let mut k = status_start;
    while k < captured.len() && captured[k] != 0x1f
        invariant
            status_start <= k <= captured.len(),
            after == captured@.skip(status_start as int),
            forall|j: int| status_start <= j < k ==> captured@[j] != 0x1f,
        decreases captured.len() - k,
    {
        k = k + 1;
    }
    if k == captured.len() {
        assert(!after.contains(0x1f)) by {
            if after.contains(0x1f) {
                let j = choose|j: int| 0 <= j < after.len() && after[j] == 0x1f;
                assert(captured@[j + status_start] == 0x1f);
            }
        }
        return None;
    }
    proof {
        assert(after[k - status_start] == 0x1f);
        let len = choose|q: int| 0 <= q < after.len() && after[q] == 0x1f && forall|j: int| 0 <= j < q ==> after[j] != 0x1f;
        if len < k - status_start { assert(after[len] == captured@[len + status_start]); }
        if k - status_start < len { assert(after[k - status_start] != 0x1f); }
    }
    let mut digits: Vec<u8> = Vec::new();
    let mut j = status_start;
    while j < k
        invariant
            status_start <= j <= k < captured.len(),
            digits@ == captured@.subrange(status_start as int, j as int),
        decreases k - j,
    {
        digits.push(captured[j]);
        assert(captured@.subrange(status_start as int, j + 1) =~= captured@.subrange(status_start as int, j as int).push(captured@[j as int]));
        j = j + 1;
    }
    assert(digits@ =~= after.take(k - status_start));
    Some((start, parse_status(digits.as_slice())))
}

/// UTF-8 length of one character (`char::len_utf8`).
pub open spec fn utf8_len(c: char) -> nat {
    let u = c as u32;
    if u < 0x80 { 1 } else if u < 0x800 { 2 } else if u < 0x10000 { 3 } else { 4 }
}

/// UTF-8 length of a string (`str::len`).
pub open spec fn utf8_total(s: Seq<char>) -> nat
    decreases s.len(),
{
    if s.len() == 0 { 0 } else { utf8_total(s.drop_last()) + utf8_len(s.last()) }
}

/// Text decoded from bytes as `String::from_utf8_lossy` decodes it.
pub uninterp spec fn utf8_lossy(bytes: Seq<u8>) -> Seq<char>;

/// `String::from_utf8_lossy`. The contract names the result; for ASCII bytes
/// it states the decoding (each byte is its own character), which the
/// documentation gives for valid UTF-8. Replacement of invalid sequences is
/// left unstated.
#[verifier::external_body]
fn decode_lossy(bytes: &Vec<u8>) -> (r: String)
    ensures
        r@ == utf8_lossy(bytes@),
        (forall|i: int| 0 <= i < bytes@.len() ==> #[trigger] bytes@[i] < 128) ==> r@ == bytes@.map_values(|b: u8| b as char),
{
    String::from_utf8_lossy(bytes).into_owned()
}

/// Byte cap on the output a `!` command shows.
pub const SHELL_OUTPUT_LIMIT: usize = 16384;

/// The longest prefix of `s` whose UTF-8 length is at most `limit`.
pub open spec fn utf8_prefix_len(s: Seq<char>, limit: nat) -> int
    decreases s.len(),
{
    if utf8_total(s) <= limit { s.len() as int } else { utf8_prefix_len(s.drop_last(), limit) }
}

/// What a `!` command shows: its output decoded lossily, and — past the
/// 16 KiB cap — cut back to a character boundary within the cap with a
/// truncation notice appended.
pub open spec fn shown_output(bytes: Seq<u8>) -> Seq<char> {
    let text = utf8_lossy(bytes);
    if utf8_total(text) > SHELL_OUTPUT_LIMIT {
        text.take(utf8_prefix_len(text, SHELL_OUTPUT_LIMIT as nat)) + "\n… (truncated)"@
    } else {
        text
    }
}

proof fn lemma_prefix_len(s: Seq<char>, limit: nat, i: int)
    requires
        0 <= i <= s.len(),
        utf8_total(s.take(i)) <= limit,
        i == s.len() || utf8_total(s.take(i + 1)) > limit,
    ensures
        utf8_prefix_len(s, limit) == i,
    decreases s.len(),
{
    if utf8_total(s) <= limit {
        if i < s.len() {
            lemma_total_mono(s, i + 1);
        }
        assert(s.take(s.len() as int) =~= s);
    } else {
        if i == s.len() {
            assert(s.take(i) =~= s);
        }
        assert(s.drop_last().take(i) =~= s.take(i));
        if i + 1 <= s.len() - 1 {
            assert(s.drop_last().take(i + 1) =~= s.take(i + 1));
        }
        lemma_prefix_len(s.drop_last(), limit, i);
    }
}

proof fn lemma_total_mono(s: Seq<char>, i: int)
    requires
        0 <= i <= s.len(),
    ensures
        utf8_total(s.take(i)) <= utf8_total(s),
    decreases s.len() - i,
{
    if i < s.len() {
        lemma_total_mono(s, i + 1);
        assert(s.take(i + 1).drop_last() =~= s.take(i));
    } else {
        assert(s.take(i) =~= s);
    }
}

fn char_utf8_len(c: char) -> (n: usize)
    ensures
        n == utf8_len(c),
{
    let u = c as u32;
    if u < 0x80 { 1 } else if u < 0x800 { 2 } else if u < 0x10000 { 3 } else { 4 }
}

/// The longest prefix of `v` within `limit` UTF-8 bytes: its length in
/// characters and in bytes.
pub fn utf8_cut(v: &Vec<char>, limit: usize) -> (r: (usize, usize))
    ensures
        r.0 == utf8_prefix_len(v@, limit as nat),
        r.0 <= v.len(),
        r.1 == utf8_total(v@.take(r.0 as int)),
{
    let mut total: usize = 0;
    let mut i: usize = 0;
    let mut stop = false;
    while !stop && i < v.len()
        invariant
            i <= v.len(),
            total == utf8_total(v@.take(i as int)),
            total <= limit,
            stop ==> i < v.len() && utf8_total(v@.take(i + 1)) > limit,
        decreases v.len() - i + if stop { 0int } else { 1int },
    {
        assert(v@.take(i + 1).drop_last() =~= v@.take(i as int));
        let w = char_utf8_len(v[i]);
        if w > limit - total {
            stop = true;
        } else {
            total = total + w;
            i = i + 1;
        }
    }
    proof {
        lemma_prefix_len(v@, limit as nat, i as int);
    }
    (i, total)
}

/// The text shown for a `!` command's output.
pub fn shell_output(bytes: Vec<u8>) -> (r: String)
    ensures
        r@ == shown_output(bytes@),
{
    let text = decode_lossy(&bytes);
    let v = chars_of(text.as_str());
    let mut total: u128 = 0;
    let mut cut: usize = 0;
    let mut i: usize = 0;
    let mut found = false;
    while i < v.len()
        invariant
            i <= v.len(),
            total == utf8_total(v@.take(i as int)),
            total <= 4 * i,
            found ==> cut < i && utf8_total(v@.take(cut as int)) <= SHELL_OUTPUT_LIMIT && utf8_total(v@.take(cut + 1)) > SHELL_OUTPUT_LIMIT,
            !found ==> total <= SHELL_OUTPUT_LIMIT,
        decreases v.len() - i,
    {
        assert(v@.take(i + 1).drop_last() =~= v@.take(i as int));
        let next = total + (char_utf8_len(v[i]) as u128);
        if !found && next > (SHELL_OUTPUT_LIMIT as u128) {
            found = true;
            cut = i;
        }
        total = next;
        i = i + 1;
    }
    assert(v@.take(v.len() as int) =~= v@);
    if found {
        proof {
            lemma_prefix_len(v@, SHELL_OUTPUT_LIMIT as nat, cut as int);
            lemma_total_mono(v@, cut + 1);
        }
        let head = crate::text::string_from_range(&v, 0, cut);
        crate::text::concat_str(head.as_str(), "\n… (truncated)")
    } else {
        text
    }
}

/// Seconds without output after which a `!` command is given up on.
pub const SHELL_SILENCE_SECS: u64 = 120;

/// The per-shell marker base: `MARTTY_SHELL_<pid>_<stamp>`.
pub fn shell_marker(pid: u32, stamp: &str) -> (r: String)
    ensures
        r@ == "MARTTY_SHELL_"@ + decimal(pid as nat) + "_"@ + stamp@,
{
    let n = format_decimal(pid as u64);
    let a = concat_str("MARTTY_SHELL_", n.as_str());
    let b = concat_str(a.as_str(), "_");
    concat_str(b.as_str(), stamp)
}

/// What the shell prints ahead of command `id`'s status:
/// `0x1e <marker> : <id> :`.
pub fn status_marker(marker: &str, id: u64) -> (r: String)
    ensures
        r@ == seq!['\u{1e}'] + marker@ + seq![':'] + decimal(id as nat) + seq![':'],
{
    let mut out: Vec<char> = Vec::new();
    out.push('\u{1e}');
    let m = chars_of(marker);
    let n = format_decimal(id);
    let d = chars_of(n.as_str());
    let ghost head = out@;
    let mut i: usize = 0;
    while i < m.len()
        invariant
            i <= m.len(),
            out@ == head + m@.take(i as int),
        decreases m.len() - i,
    {
        out.push(m[i]);
        assert(m@.take(i + 1) =~= m@.take(i as int).push(m@[i as int]));
        i = i + 1;
    }
    assert(m@.take(m.len() as int) =~= m@);
    out.push(':');
    let ghost mid = out@;
    let mut j: usize = 0;
    while j < d.len()
        invariant
            j <= d.len(),
            out@ == mid + d@.take(j as int),
        decreases d.len() - j,
    {
        out.push(d[j]);
        assert(d@.take(j + 1) =~= d@.take(j as int).push(d@[j as int]));
        j = j + 1;
    }
    assert(d@.take(d.len() as int) =~= d@);
    out.push(':');
    assert(out@ =~= seq!['\u{1e}'] + marker@ + seq![':'] + decimal(id as nat) + seq![':']);
    string_from(out.as_slice())
}

/// The lines that run `command` in the persistent shell — its input from
/// `/dev/null`, so a command that reads stdin cannot swallow the lines that
/// follow — then print its status between the marker and `0x1f` on the
/// control descriptor.
pub fn shell_script(marker: &str, id: u64, command: &str) -> (r: String)
    ensures
        r@ == "eval "@ + seq!['\''] + escape_quotes(command@) + seq!['\''] + " 2>&1 < /dev/null\n"@
            + "__martty_shell_status=$?\n"@ + "command printf '\\036"@ + marker@ + ":"@ + decimal(id as nat)
            + ":%s\\037' \"$__martty_shell_status\" >&9\n"@,
{
    let quoted = shell_quote(command);
    let n = format_decimal(id);
    let a = concat_str("eval ", quoted.as_str());
    let b = concat_str(a.as_str(), " 2>&1 < /dev/null\n");
    let c = concat_str(b.as_str(), "__martty_shell_status=$?\n");
    let d = concat_str(c.as_str(), "command printf '\\036");
    let e = concat_str(d.as_str(), marker);
    let f = concat_str(e.as_str(), ":");
    let g = concat_str(f.as_str(), n.as_str());
    concat_str(g.as_str(), ":%s\\037' \"$__martty_shell_status\" >&9\n")
}

/// How the wait for a command's status marker ended.
pub enum ShellRead {
    /// The marker arrived, with the parsed exit status.
    Done(Option<i32>),
    /// The shell's output closed.
    Eof,
    /// No output within the silence deadline.
    Silent,
}

/// The notice shown for a command killed for silence.
pub open spec fn silence_notice() -> Seq<char> {
    "command killed: no output for "@ + decimal(SHELL_SILENCE_SECS as nat)
        + "s — the next `!` restarts the shell"@
}

/// A `!` command's result `(status, shown output, shell still usable)`:
/// after the marker, the parsed status and the captured output; after the
/// shell closed, its exit code and the output; after a silence, no status
/// and a notice that the shell was killed.
pub fn shell_result(read: ShellRead, captured: Vec<u8>, exit_code: Option<i32>) -> (r: (Option<i32>, String, bool))
    ensures
        match read {
            ShellRead::Done(status) => r.0 == status && r.1@ == shown_output(captured@) && r.2,
            ShellRead::Eof => r.0 == exit_code && r.1@ == shown_output(captured@) && !r.2,
            ShellRead::Silent => r.0 is None && r.1@ == silence_notice() && !r.2,
        },
{
    match read {
        ShellRead::Done(status) => (status, shell_output(captured), true),
        ShellRead::Eof => (exit_code, shell_output(captured), false),
        ShellRead::Silent => {
            let n = format_decimal(SHELL_SILENCE_SECS);
            let a = concat_str("command killed: no output for ", n.as_str());
            (None, concat_str(a.as_str(), "s — the next `!` restarts the shell"), false)
        },
    }
}

/// The position of the first pending command with id `id`.
pub open spec fn pending_position<T>(pending: Seq<(u64, T)>, id: u64) -> Option<int>
    decreases pending.len(),
{
    if pending.len() == 0 {
        None
    } else if pending[0].0 == id {
        Some(0)
    } else {
        match pending_position(pending.drop_first(), id) {
            Some(k) => Some(k + 1),
            None => None,
        }
    }
}

/// Take the bookkeeping of finished command `id` (where its output goes)
/// out of the pending list; `None` when no command with that id waits.
pub fn take_pending<T>(pending: &mut Vec<(u64, T)>, id: u64) -> (r: Option<T>)
    ensures
        match pending_position(old(pending)@, id) {
            Some(k) => r == Some(old(pending)@[k].1) && final(pending)@ == old(pending)@.remove(k),
            None => r is None && final(pending)@ == old(pending)@,
        },
{
    let mut i: usize = 0;
    assert(pending@.skip(0) =~= pending@);
    while i < pending.len()
        invariant
            i <= pending.len(),
            pending@ == old(pending)@,
            pending_position(pending@, id) == match pending_position(pending@.skip(i as int), id) {
                Some(k) => Some(k + i),
                None => None,
            },
        decreases pending.len() - i,
    {
        assert(pending@.skip(i as int)[0] == pending@[i as int]);
        assert(pending@.skip(i as int).drop_first() =~= pending@.skip(i + 1));
        if pending[i].0 == id {
            let (_, target) = pending.remove(i);
            return Some(target);
        }
        i = i + 1;
    }
    assert(pending@.skip(i as int) =~= Seq::<(u64, T)>::empty());
    None
}

} // verus!
