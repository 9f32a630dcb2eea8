//! Decimal and hexadecimal rendering of integers.
use vstd::prelude::*;
use crate::text::string_from;

verus! {

pub open spec fn digit_char(d: nat) -> char {
    if d < 10 { (('0' as u32) + d) as char } else { (('a' as u32) + d - 10) as char }
}

/// The numerals of `n` in `base` (2..=16), most significant first, no
/// leading zeros (`"0"` for zero).
pub open spec fn numeral(n: nat, base: nat) -> Seq<char>
    decreases n,
{
    if base < 2 || n < base {
        seq![digit_char(n % 16)]
    } else {
        proof {
            assert(n / base < n) by (nonlinear_arith)
                requires
                    base >= 2,
                    n >= base,
            ;
        }
        numeral(n / base, base).push(digit_char(n % base))
    }
}

/// `format!("{n}")`.
pub open spec fn decimal(n: nat) -> Seq<char> {
    numeral(n, 10)
}

/// `format!("{n:x}")`.
pub open spec fn hex(n: nat) -> Seq<char> {
    numeral(n, 16)
}

fn digit(d: u64) -> (c: char)
    requires
        d < 16,
    ensures
        c == digit_char(d as nat),
{
    if d < 10 {
        let u = (d as u8) + 48;
        assert(u as char == (('0' as u32) + d) as char);
        u as char
    } else {
        let u = (d as u8) + 87;
        assert(u as char == (('a' as u32) + d - 10) as char);
        u as char
    }
}

proof fn lemma_numeral_step(n: nat, base: nat)
    requires
        2 <= base <= 16,
        n >= base,
    ensures
        numeral(n, base) == numeral(n / base, base).push(digit_char(n % base)),
{
}

/// The numerals of `n` in `base`.
pub fn format_radix(n: u128, base: u128) -> (r: String)
    requires
        2 <= base <= 16,
    ensures
        r@ == numeral(n as nat, base as nat),
    decreases n,
{
    let mut digits: Vec<char> = Vec::new();
    let mut m = n;
    // digits are produced least significant first, then reversed
    let ghost mut acc: Seq<char> = Seq::empty();
    while m >= base
        invariant
            2 <= base <= 16,
            numeral(n as nat, base as nat) == numeral(m as nat, base as nat) + acc,
            digits@ == acc.reverse(),
        decreases m,
    {
        let d = digit((m % base) as u64);
        proof {
            lemma_numeral_step(m as nat, base as nat);
            assert(numeral(m as nat, base as nat) + acc =~= numeral((m / base) as nat, base as nat) + (seq![d] + acc));
            assert((seq![d] + acc).reverse() =~= acc.reverse().push(d));
        }
        digits.push(d);
        proof {
            acc = seq![d] + acc;
        }
        m = m / base;
    }
    let d = digit((m % 16) as u64);
    proof {
        assert(numeral(m as nat, base as nat) == seq![d]);
        assert((seq![d] + acc).reverse() =~= acc.reverse().push(d));
        acc = seq![d] + acc;
    }
    digits.push(d);
    let mut out: Vec<char> = Vec::new();
    let mut i = digits.len();
    while i > 0
        invariant
            i <= digits.len(),
            digits@ == acc.reverse(),
            out@ == acc.take((digits.len() - i) as int),
        decreases i,
    {
        out.push(digits[i - 1]);
        assert(acc.take((digits.len() - i + 1) as int) =~= acc.take((digits.len() - i) as int).push(
            acc[(digits.len() - i) as int],
        ));
        i = i - 1;
    }
    assert(acc.take(digits.len() as int) =~= acc);
    string_from(out.as_slice())
}

/// `n.to_string()`.
pub fn format_decimal(n: u64) -> (r: String)
    ensures
        r@ == decimal(n as nat),
{
    format_radix(n as u128, 10)
}

/// A process-unique id from a clock reading in microseconds and a counter:
/// both in lowercase hexadecimal, joined by `-` (`{micros:x}-{seq:x}`).
pub fn timestamp(micros: u128, seq: u64) -> (r: String)
    ensures
        r@ == stamp(micros as nat, seq as nat),
{
    let clock = format_radix(micros, 16);
    let counter = format_radix(seq as u128, 16);
    let mut out: Vec<char> = crate::text::chars_of(clock.as_str());
    out.push('-');
    let tail = crate::text::chars_of(counter.as_str());
    let ghost head = out@;
    let mut i: usize = 0;
    while i < tail.len()
        invariant
            i <= tail.len(),
            out@ == head + tail@.take(i as int),
        decreases tail.len() - i,
    {
        out.push(tail[i]);
        assert(tail@.take(i + 1) =~= tail@.take(i as int).push(tail@[i as int]));
        i = i + 1;
    }
    assert(tail@.take(tail.len() as int) =~= tail@);
    string_from(out.as_slice())
}

/// A lowercase hexadecimal digit.
pub open spec fn is_hex_digit(c: char) -> bool {
    ('0' <= c && c <= '9') || ('a' <= c && c <= 'f')
}

/// The stamp `timestamp` renders: `{micros:x}-{seq:x}`.
pub open spec fn stamp(micros: nat, seq: nat) -> Seq<char> {
    hex(micros) + seq!['-'] + hex(seq)
}

/// Digit values below 16 map to distinct lowercase hex digits.
proof fn lemma_digit_char(d: nat, e: nat)
    requires
        d < 16,
        e < 16,
    ensures
        is_hex_digit(digit_char(d)),
        digit_char(d) == digit_char(e) ==> d == e,
{
    assert(d < 10 ==> digit_char(d) as u32 == 48 + d);
    assert(d >= 10 ==> digit_char(d) as u32 == 97 + d - 10);
    assert(e < 10 ==> digit_char(e) as u32 == 48 + e);
    assert(e >= 10 ==> digit_char(e) as u32 == 97 + e - 10);
}

/// A hex numeral is made of hex digits, at least one, and only one digit
/// when the number is below 16.
proof fn lemma_hex_digits(n: nat)
    ensures
        hex(n).len() >= 1,
        n < 16 ==> hex(n) == seq![digit_char(n)],
        n >= 16 ==> hex(n).len() >= 2,
        forall|k: int| 0 <= k < hex(n).len() ==> is_hex_digit(#[trigger] hex(n)[k]),
    decreases n,
{
    if n < 16 {
        lemma_digit_char(n % 16, 0);
        assert(n % 16 == n);
    } else {
        lemma_hex_digits(n / 16);
        lemma_digit_char(n % 16, 0);
        lemma_numeral_step(n, 16);
        assert forall|k: int| 0 <= k < hex(n).len() implies is_hex_digit(#[trigger] hex(n)[k]) by {
            if k < hex(n / 16).len() {
                assert(hex(n)[k] == hex(n / 16)[k]);
            }
        }
    }
}

/// Different numbers have different hex numerals.
proof fn lemma_hex_injective(n: nat, m: nat)
    requires
        hex(n) == hex(m),
    ensures
        n == m,
    decreases n + m,
{
    lemma_hex_digits(n);
    lemma_hex_digits(m);
    if n < 16 && m < 16 {
        lemma_digit_char(n, m);
        assert(hex(n)[0] == digit_char(n));
        assert(hex(m)[0] == digit_char(m));
        assert(n == m);
    } else if n >= 16 && m >= 16 {
        lemma_numeral_step(n, 16);
        lemma_numeral_step(m, 16);
        let a = hex(n);
        assert(a.last() == digit_char(n % 16));
        assert(hex(m).last() == digit_char(m % 16));
        lemma_digit_char(n % 16, m % 16);
        assert(a.drop_last() =~= hex(n / 16));
        assert(hex(m).drop_last() =~= hex(m / 16));
        assert(n % 16 == m % 16);
        lemma_hex_injective(n / 16, m / 16);
        assert(n == 16 * (n / 16) + n % 16) by (nonlinear_arith);
        assert(m == 16 * (m / 16) + m % 16) by (nonlinear_arith);
        assert(n == m);
    } else {
        assert(hex(n).len() != hex(m).len());
    }
}

/// Two dash-free parts joined by one dash split back into those parts.
proof fn lemma_split_at_dash(a1: Seq<char>, b1: Seq<char>, a2: Seq<char>, b2: Seq<char>)
    requires
        forall|k: int| 0 <= k < a1.len() ==> #[trigger] a1[k] != '-',
        forall|k: int| 0 <= k < a2.len() ==> #[trigger] a2[k] != '-',
        a1 + seq!['-'] + b1 == a2 + seq!['-'] + b2,
    ensures
        a1 == a2,
        b1 == b2,
{
    let x = a1 + seq!['-'] + b1;
    let y = a2 + seq!['-'] + b2;
    if a1.len() < a2.len() {
        assert(x[a1.len() as int] == '-');
        assert(y[a1.len() as int] == a2[a1.len() as int]);
    } else if a2.len() < a1.len() {
        assert(y[a2.len() as int] == '-');
        assert(x[a2.len() as int] == a1[a2.len() as int]);
    }
    assert(a1 =~= x.take(a1.len() as int));
    assert(a2 =~= y.take(a2.len() as int));
    assert(b1 =~= x.skip(a1.len() as int + 1));
    assert(b2 =~= y.skip(a2.len() as int + 1));
}

/// Stamps are `hex-hex`, and a stamp tells its clock reading and counter
/// apart: two stamps whose counters differ are different strings, so
/// stamps taken with a counter that only grows never repeat.
pub proof fn law_stamps_with_different_counters_differ(m1: nat, s1: nat, m2: nat, s2: nat)
    ensures
        forall|k: int| 0 <= k < stamp(m1, s1).len() && k != hex(m1).len() ==> is_hex_digit(
            #[trigger] stamp(m1, s1)[k],
        ),
        stamp(m1, s1)[hex(m1).len() as int] == '-',
        hex(m1).len() >= 1 && hex(s1).len() >= 1,
        stamp(m1, s1) == stamp(m2, s2) ==> m1 == m2 && s1 == s2,
        s1 != s2 ==> stamp(m1, s1) != stamp(m2, s2),
{
    lemma_hex_digits(m1);
    lemma_hex_digits(s1);
    lemma_hex_digits(m2);
    let t = stamp(m1, s1);
    assert forall|k: int| 0 <= k < t.len() && k != hex(m1).len() implies is_hex_digit(#[trigger] t[k]) by {
        if k < hex(m1).len() {
            assert(t[k] == hex(m1)[k]);
        } else {
            assert(t[k] == hex(s1)[k - hex(m1).len() - 1]);
        }
    }
    assert forall|k: int| 0 <= k < hex(m1).len() implies #[trigger] hex(m1)[k] != '-' by {
        assert(is_hex_digit(hex(m1)[k]));
    }
    assert forall|k: int| 0 <= k < hex(m2).len() implies #[trigger] hex(m2)[k] != '-' by {
        assert(is_hex_digit(hex(m2)[k]));
    }
    if stamp(m1, s1) == stamp(m2, s2) {
        lemma_split_at_dash(hex(m1), hex(s1), hex(m2), hex(s2));
        lemma_hex_injective(m1, m2);
        lemma_hex_injective(s1, s2);
    }
}

} // verus!
