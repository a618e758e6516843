//! Decimal numerals: reading a number from text and writing it as text.
use vstd::prelude::*;
use crate::number::{make, ratio, rounded_units, Number};
use crate::text::{find_char, first_index, lemma_first_index};

verus! {

/// `c` is one of the ten digits.
pub open spec fn is_digit(c: char) -> bool {
    '0' <= c && c <= '9'
}

/// What the digit `c` counts.
pub open spec fn digit_value(c: char) -> nat {
    (c as u32 - 48) as nat
}

/// The digit that counts `d`.
pub open spec fn digit_char(d: nat) -> char {
    (d + 48) as u8 as char
}

/// Every character of `s` is a digit.
pub open spec fn all_digits(s: Seq<char>) -> bool {
    forall|i: int| 0 <= i < s.len() ==> is_digit(#[trigger] s[i])
}

/// The natural number that the digits of `s` write after the number
/// `acc`.
pub open spec fn digits_after(acc: nat, s: Seq<char>) -> nat
    decreases s.len(),
{
    if s.len() == 0 {
        acc
    } else {
        digits_after(acc, s.drop_last()) * 10 + digit_value(s.last())
    }
}

/// Ten to the power `k`.
pub open spec fn pow10(k: nat) -> nat
    decreases k,
{
    if k == 0 {
        1
    } else {
        pow10((k - 1) as nat) * 10
    }
}

/// A numeral is read where its digits write less than this.
pub const DIGITS_CAP: u64 = 1_000_000_000_000_000_000;

/// A numeral is read where it has no more places after the point than
/// this.
pub const MAX_PLACES: usize = 18;

/// `x`, or the cap where `x` reaches it.
pub open spec fn capped(x: nat) -> nat {
    if x < DIGITS_CAP {
        x
    } else {
        DIGITS_CAP as nat
    }
}

/// What a numeral without sign and exponent writes, as a whole number
/// over a power of ten: digits, with at most one point among them and at
/// least one digit. A numeral of more places than `MAX_PLACES`, or whose
/// digits reach `DIGITS_CAP`, is not read.
pub open spec fn plain_parts(s: Seq<char>) -> Option<(nat, nat)> {
    let k = first_index(s, '.');
    let whole = s.take(k);
    let frac = if k < s.len() { s.skip(k + 1) } else { Seq::<char>::empty() };
    let digits = digits_after(digits_after(0, whole), frac);
    if all_digits(whole) && all_digits(frac) && whole.len() + frac.len() > 0 && frac.len()
        <= MAX_PLACES && digits < DIGITS_CAP {
        Some((digits, pow10(frac.len())))
    } else {
        None
    }
}

/// The place of the mark of the exponent: of the first `e` or `E`.
pub open spec fn exponent_mark(s: Seq<char>) -> int {
    let a = first_index(s, 'e');
    let b = first_index(s, 'E');
    if a <= b {
        a
    } else {
        b
    }
}

/// The exponent that a text writes: one or two digits, with `-` or `+`
/// before them or without a sign, that write no more than `MAX_PLACES`.
pub open spec fn exponent_value(t: Seq<char>) -> Option<int> {
    let signed = t.len() > 0 && (t[0] == '-' || t[0] == '+');
    let digits = if signed { t.skip(1) } else { t };
    let e = digits_after(0, digits);
    if all_digits(digits) && 1 <= digits.len() <= 2 && e <= MAX_PLACES {
        Some(if t.len() > 0 && t[0] == '-' { -(e as int) } else { e as int })
    } else {
        None
    }
}

/// What an unsigned numeral writes, as a whole number over a power of
/// ten: a numeral without exponent, or one with an exponent after `e` or
/// `E`, by which the power of ten is moved.
pub open spec fn unsigned_parts(s: Seq<char>) -> Option<(nat, nat)> {
    let m = exponent_mark(s);
    if !(0 <= m < s.len()) {
        plain_parts(s)
    } else {
        match (plain_parts(s.take(m)), exponent_value(s.skip(m + 1))) {
            (Some(p), Some(e)) => if e > 0 {
                Some((p.0 * pow10(e as nat), p.1))
            } else if e < 0 {
                Some((p.0, p.1 * pow10((-e) as nat)))
            } else {
                Some(p)
            },
            _ => None,
        }
    }
}

/// The number that a numeral writes: an unsigned numeral, with `-` or `+`
/// before it or without a sign.
pub open spec fn numeral_number(s: Seq<char>) -> Option<Number> {
    if s.len() > 0 && s[0] == '-' {
        match unsigned_parts(s.skip(1)) {
            Some(p) => ratio(-(p.0 as int), p.1 as int),
            None => None,
        }
    } else if s.len() > 0 && s[0] == '+' {
        match unsigned_parts(s.skip(1)) {
            Some(p) => ratio(p.0 as int, p.1 as int),
            None => None,
        }
    } else {
        match unsigned_parts(s) {
            Some(p) => ratio(p.0 as int, p.1 as int),
            None => None,
        }
    }
}

/// The numeral of `n` in base ten, without leading zeros.
pub open spec fn decimal(n: nat) -> Seq<char>
    decreases n,
{
    if n < 10 {
        seq![digit_char(n)]
    } else {
        decimal(n / 10).push(digit_char(n % 10))
    }
}

/// The last `k` digits of `n` in base ten, zeros in front where needed.
pub open spec fn padded(n: nat, k: nat) -> Seq<char>
    decreases k,
{
    if k == 0 {
        Seq::empty()
    } else {
        padded(n / 10, (k - 1) as nat).push(digit_char(n % 10))
    }
}

/// The digits after the point for `f` ten-thousandths, `0 < f < 10000`:
/// four places without the zeros at their end.
pub open spec fn fraction_text(f: nat) -> Seq<char> {
    if f % 10 != 0 {
        padded(f, 4)
    } else if f % 100 != 0 {
        padded(f / 10, 3)
    } else if f % 1000 != 0 {
        padded(f / 100, 2)
    } else {
        padded(f / 1000, 1)
    }
}

/// The text of a number: that of its ten-thousandths, rounded.
pub open spec fn shown(n: Number) -> Seq<char> {
    number_text(rounded_units(n))
}

/// The text of `u` ten-thousandths: a `-` where it is negative, the whole
/// part, and, where there is a fraction, a point and its digits.
pub open spec fn number_text(u: int) -> Seq<char> {
    let m = (if u < 0 { -u } else { u }) as nat;
    let sign = if u < 0 { seq!['-'] } else { Seq::<char>::empty() };
    let frac = m % 10_000;
    let tail = if frac != 0 { seq!['.'] + fraction_text(frac) } else { Seq::<char>::empty() };
    sign + decimal(m / 10_000) + tail
}

/// Whether the characters from `from` up to `to` are all digits.
fn are_digits(s: &Vec<char>, from: usize, to: usize) -> (yes: bool)
    requires
        from <= to <= s.len(),
    ensures
        yes == all_digits(s@.subrange(from as int, to as int)),
{
    let mut i: usize = from;
    while i < to
        invariant
            from <= i <= to <= s.len(),
            all_digits(s@.subrange(from as int, i as int)),
        decreases to - i,
    {
        let c = s[i];
        if !(c >= '0' && c <= '9') {
            assert(s@.subrange(from as int, to as int)[i - from] == c);
            return false;
        }
        assert forall|j: int| 0 <= j < i + 1 - from implies is_digit(
            #[trigger] s@.subrange(from as int, i + 1)[j],
        ) by {
            if j < i - from {
                assert(s@.subrange(from as int, i as int)[j] == s@[from + j]);
            }
        }
        i += 1;
    }
    true
}

/// What the digits from `from` up to `to` write after `acc`, or the cap
/// where that reaches it.
fn read_digits(s: &Vec<char>, from: usize, to: usize, acc: u64, Ghost(a): Ghost<nat>) -> (value: u64)
    requires
        from <= to <= s.len(),
        all_digits(s@.subrange(from as int, to as int)),
        acc == capped(a),
    ensures
        value == capped(digits_after(a, s@.subrange(from as int, to as int))),
{
    let mut value: u64 = acc;
    let mut i: usize = from;
    assert(s@.subrange(from as int, from as int) =~= Seq::<char>::empty());
    while i < to
        invariant
            from <= i <= to <= s.len(),
            all_digits(s@.subrange(from as int, to as int)),
            value <= DIGITS_CAP,
            value == capped(digits_after(a, s@.subrange(from as int, i as int))),
        decreases to - i,
    {
        let c = s[i];
        assert(s@.subrange(from as int, to as int)[i - from] == c);
        assert(s@.subrange(from as int, i + 1).drop_last() =~= s@.subrange(from as int, i as int));
        assert(s@.subrange(from as int, i + 1).last() == c);
        let d: u64 = (c as u32 - 48) as u64;
        let next: u64 = value * 10 + d;
        value = if next < DIGITS_CAP { next } else { DIGITS_CAP };
        i += 1;
    }
    value
}

/// Ten to a greater power is no less.
proof fn lemma_pow10_grows(i: nat, j: nat)
    requires
        i <= j,
    ensures
        pow10(i) <= pow10(j),
    decreases j - i,
{
    if i < j {
        lemma_pow10_grows(i, (j - 1) as nat);
    }
}

/// Ten to the eighteenth power.
proof fn lemma_pow10_eighteen()
    ensures
        pow10(18) == 1_000_000_000_000_000_000,
{
    assert(pow10(0) == 1);
    assert(pow10(1) == 10);
    assert(pow10(2) == 100);
    assert(pow10(3) == 1_000);
    assert(pow10(4) == 10_000);
    assert(pow10(5) == 100_000);
    assert(pow10(6) == 1_000_000);
    assert(pow10(7) == 10_000_000);
    assert(pow10(8) == 100_000_000);
    assert(pow10(9) == 1_000_000_000);
    assert(pow10(10) == 10_000_000_000);
    assert(pow10(11) == 100_000_000_000);
    assert(pow10(12) == 1_000_000_000_000);
    assert(pow10(13) == 10_000_000_000_000);
    assert(pow10(14) == 100_000_000_000_000);
    assert(pow10(15) == 1_000_000_000_000_000);
    assert(pow10(16) == 10_000_000_000_000_000);
    assert(pow10(17) == 100_000_000_000_000_000);
    assert(pow10(18) == 1_000_000_000_000_000_000);
}

/// Ten to the power `places`.
fn scale_of(places: usize) -> (p: u64)
    requires
        places <= MAX_PLACES,
    ensures
        p == pow10(places as nat),
        0 < p <= 1_000_000_000_000_000_000,
{
    let mut p: u64 = 1;
    let mut i: usize = 0;
    proof {
        lemma_pow10_eighteen();
        lemma_pow10_grows(places as nat, 18);
    }
    while i < places
        invariant
            i <= places <= MAX_PLACES,
            p == pow10(i as nat),
            p > 0,
            pow10(18) == 1_000_000_000_000_000_000,
        decreases places - i,
    {
        proof {
            lemma_pow10_grows((i + 1) as nat, 18);
        }
        p = p * 10;
        i += 1;
    }
    p
}

/// Reads the numeral without sign and exponent that begins at `start`:
/// the whole number that its digits write, and the power of ten to divide
/// it by.
fn parse_plain(text: &Vec<char>, start: usize) -> (r: Option<(u64, u64)>)
    requires
        start <= text.len(),
    ensures
        match plain_parts(text@.skip(start as int)) {
            Some(p) => r == Some((p.0 as u64, p.1 as u64)) && p.0 < DIGITS_CAP && 0 < p.1
                <= 1_000_000_000_000_000_000,
            None => r is None,
        },
{
    let n = text.len();
    let k = find_char(text, start, '.');
    let frac_from: usize = if k < n { k + 1 } else { n };
    proof {
        let body = text@.skip(start as int);
        let whole = body.take(k - start);
        let frac = if k - start < body.len() { body.skip(k - start + 1) } else { Seq::<char>::empty() };
        assert(whole =~= text@.subrange(start as int, k as int));
        assert(frac =~= text@.subrange(frac_from as int, n as int));
    }
    if !are_digits(text, start, k) {
        return None;
    }
    if !are_digits(text, frac_from, n) {
        return None;
    }
    if (k - start) + (n - frac_from) == 0 {
        return None;
    }
    if n - frac_from > MAX_PLACES {
        return None;
    }
    let w = read_digits(text, start, k, 0, Ghost(0));
    let ghost whole_value = digits_after(0, text@.subrange(start as int, k as int));
    let digits = read_digits(text, frac_from, n, w, Ghost(whole_value));
    if digits >= DIGITS_CAP {
        return None;
    }
    let scale = scale_of(n - frac_from);
    Some((digits, scale))
}

/// Reads an exponent.
fn read_exponent(t: &Vec<char>) -> (r: Option<(bool, usize)>)
    ensures
        match exponent_value(t@) {
            Some(e) => r == Some((e < 0, (if e < 0 { -e } else { e }) as usize)) && -(MAX_PLACES as int)
                <= e <= MAX_PLACES,
            None => r is None,
        },
{
    let n = t.len();
    let signed = n > 0 && (t[0] == '-' || t[0] == '+');
    let from: usize = if signed { 1 } else { 0 };
    proof {
        let digits = if signed { t@.skip(1) } else { t@ };
        assert(digits =~= t@.subrange(from as int, n as int));
    }
    if n - from < 1 || n - from > 2 {
        return None;
    }
    if !are_digits(t, from, n) {
        return None;
    }
    let value = read_digits(t, from, n, 0, Ghost(0));
    if value > MAX_PLACES as u64 {
        return None;
    }
    Some((t[0] == '-' && value > 0, value as usize))
}

/// Reads the unsigned numeral that begins at `start`: the whole number
/// to divide, and the power of ten to divide it by.
fn parse_unsigned(text: &Vec<char>, start: usize) -> (r: Option<(u128, u128)>)
    requires
        start <= text.len(),
    ensures
        match unsigned_parts(text@.skip(start as int)) {
            Some(p) => r == Some((p.0 as u128, p.1 as u128)) && p.0
                <= 1_000_000_000_000_000_000_000_000_000_000_000_000 && 0 < p.1
                <= 1_000_000_000_000_000_000_000_000_000_000_000_000,
            None => r is None,
        },
{
    let body = crate::text::slice_chars(text, start, text.len());
    assert(body@ =~= text@.skip(start as int));
    assert(body@.skip(0) =~= body@);
    let a = find_char(&body, 0, 'e');
    let b = find_char(&body, 0, 'E');
    let m = if a <= b { a } else { b };
    if m >= body.len() {
        return match parse_plain(&body, 0) {
            Some((digits, scale)) => Some((digits as u128, scale as u128)),
            None => None,
        };
    }
    let mantissa = crate::text::slice_chars(&body, 0, m);
    let tail = crate::text::slice_chars(&body, m + 1, body.len());
    assert(mantissa@ =~= body@.take(m as int));
    assert(mantissa@.skip(0) =~= mantissa@);
    assert(tail@ =~= body@.skip(m + 1));
    let (digits, scale) = match parse_plain(&mantissa, 0) {
        Some(p) => p,
        None => {
            return None;
        },
    };
    let (negative, e) = match read_exponent(&tail) {
        Some(p) => p,
        None => {
            return None;
        },
    };
    if e == 0 {
        return Some((digits as u128, scale as u128));
    }
    let factor = scale_of(e);
    proof {
        lemma_pow10_grows(e as nat, 18);
        lemma_pow10_eighteen();
    }
    if negative {
        assert(scale * factor <= 1_000_000_000_000_000_000 * 1_000_000_000_000_000_000) by (nonlinear_arith)
            requires
                0 <= scale <= 1_000_000_000_000_000_000,
                0 <= factor <= 1_000_000_000_000_000_000,
        ;
        assert(scale * factor > 0) by (nonlinear_arith)
            requires
                scale > 0,
                factor > 0,
        ;
        Some((digits as u128, (scale as u128) * (factor as u128)))
    } else {
        assert(digits * factor <= 1_000_000_000_000_000_000 * 1_000_000_000_000_000_000) by (nonlinear_arith)
            requires
                0 <= digits <= 1_000_000_000_000_000_000,
                0 <= factor <= 1_000_000_000_000_000_000,
        ;
        Some(((digits as u128) * (factor as u128), scale as u128))
    }
}

/// Reads a decimal numeral. There is a number exactly where the text is a
/// numeral whose value can be held.
pub fn parse_number(text: &Vec<char>) -> (r: Option<Number>)
    ensures
        r == numeral_number(text@),
{
    let n = text.len();
    if n > 0 && text[0] == '-' {
        match parse_unsigned(text, 1) {
            Some((digits, scale)) => make(-(digits as i128), scale as i128),
            None => None,
        }
    } else if n > 0 && text[0] == '+' {
        match parse_unsigned(text, 1) {
            Some((digits, scale)) => make(digits as i128, scale as i128),
            None => None,
        }
    } else {
        assert(text@.skip(0) =~= text@);
        match parse_unsigned(text, 0) {
            Some((digits, scale)) => make(digits as i128, scale as i128),
            None => None,
        }
    }
}

/// Appends the base-ten numeral of `n`.
fn push_decimal(out: &mut Vec<char>, n: u128)
    ensures
        final(out)@ == old(out)@ + decimal(n as nat),
    decreases n,
{
    if n >= 10 {
        push_decimal(out, n / 10);
    }
    let d: u8 = (n % 10) as u8;
    out.push((d + 48) as char);
    assert(final(out)@ =~= old(out)@ + decimal(n as nat));
}

/// Appends the last `k` digits of `n`, zeros in front where needed.
fn push_padded(out: &mut Vec<char>, n: u64, k: u8)
    ensures
        final(out)@ == old(out)@ + padded(n as nat, k as nat),
    decreases k,
{
    if k > 0 {
        push_padded(out, n / 10, k - 1);
        let d: u8 = (n % 10) as u8;
        out.push((d + 48) as char);
    }
    assert(final(out)@ =~= old(out)@ + padded(n as nat, k as nat));
}

/// Writes a number as text: its ten-thousandths, rounded.
pub fn format_number(n: Number) -> (out: Vec<char>)
    ensures
        out@ == shown(n),
{
    let mut out: Vec<char> = Vec::new();
    let wide: i128 = n.to_units();
    let m: u128 = (if wide < 0 { -wide } else { wide }) as u128;
    if wide < 0 {
        out.push('-');
    }
    let ghost sign = out@;
    push_decimal(&mut out, m / 10_000);
    let frac: u64 = (m % 10_000) as u64;
    if frac != 0 {
        out.push('.');
        let ghost head = out@;
        if frac % 10 != 0 {
            push_padded(&mut out, frac, 4);
        } else if frac % 100 != 0 {
            push_padded(&mut out, frac / 10, 3);
        } else if frac % 1000 != 0 {
            push_padded(&mut out, frac / 100, 2);
        } else {
            push_padded(&mut out, frac / 1000, 1);
        }
        assert(out@ =~= sign + decimal((m / 10_000) as nat) + (seq!['.'] + fraction_text(frac as nat)));
    } else {
        assert(out@ =~= sign + decimal((m / 10_000) as nat) + Seq::<char>::empty());
    }
    out
}

} // verus!
