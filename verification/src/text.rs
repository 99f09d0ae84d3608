//! Decimal text: rendering integers and parsing decimal numerals.
//!
//! The parameter layer shows plain values as decimal strings and accepts
//! host edits back. A numeral is an optional sign, digits with an optional
//! fractional part, and an optional exponent (`-12`, `3.5`, `12.`, `.25`,
//! `1e1`, `2.5E-3`); it denotes an exact rational with a power-of-ten
//! denominator. To keep the exact arithmetic inside machine integers, at
//! most 9 integer, 6 fractional and 2 exponent digits are accepted, the
//! denoted numerator must fit in 15 decimal digits and the denominator in
//! 9; numerals beyond those bounds — and the non-finite forms `inf` and
//! `NaN` — are rejected as unparsable.

use crate::ratio::Ratio;
use vstd::prelude::*;

verus! {

pub open spec fn is_digit(c: char) -> bool {
    48 <= c as u32 <= 57
}

pub open spec fn digit_val(c: char) -> int {
    c as u32 - 48
}

pub open spec fn all_digits(t: Seq<char>) -> bool {
    forall|i: int| 0 <= i < t.len() ==> is_digit(#[trigger] t[i])
}

/// The value of a digit string, most significant first.
pub open spec fn digits_val(t: Seq<char>) -> int
    decreases t.len(),
{
    if t.len() == 0 {
        0
    } else {
        digits_val(t.drop_last()) * 10 + digit_val(t.last())
    }
}

pub open spec fn pow10(k: nat) -> int
    decreases k,
{
    if k == 0 {
        1
    } else {
        10 * pow10((k - 1) as nat)
    }
}

pub proof fn lemma_digits_val_bound(t: Seq<char>)
    requires
        all_digits(t),
    ensures
        0 <= digits_val(t) < pow10(t.len()),
    decreases t.len(),
{
    if t.len() > 0 {
        assert(all_digits(t.drop_last()));
        lemma_digits_val_bound(t.drop_last());
        assert(is_digit(t.last()));
    }
}

/// A whitespace character: what delimits the leading token of a host edit.
pub open spec fn is_space(c: char) -> bool {
    c == ' ' || c == '\t' || c == '\n' || c == '\r' || c == '\u{b}' || c == '\u{c}'
}

/// A class of characters at which a left-to-right scan stops.
#[derive(Clone, Copy, PartialEq, Eq, Structural, Debug)]
pub enum ScanStop {
    /// Whitespace (token ends).
    Space,
    /// The decimal point.
    Point,
    /// An exponent marker, `e` or `E`.
    Exponent,
}

pub open spec fn is_stop(c: char, stop: ScanStop) -> bool {
    match stop {
        ScanStop::Space => is_space(c),
        ScanStop::Point => c == '.',
        ScanStop::Exponent => c == 'e' || c == 'E',
    }
}

/// The number of characters before the first one of the stop class, or the
/// whole length.
pub open spec fn prefix_len_until(t: Seq<char>, stop: ScanStop) -> int
    decreases t.len(),
{
    if t.len() == 0 || is_stop(t[0], stop) {
        0
    } else {
        1 + prefix_len_until(t.subrange(1, t.len() as int), stop)
    }
}

/// `prefix_len_until` is exactly the first index holding a stop character
/// (or the length when none does).
pub proof fn lemma_prefix_len_until_is(t: Seq<char>, stop: ScanStop, k: int)
    requires
        0 <= k <= t.len(),
        forall|j: int| 0 <= j < k ==> !is_stop(#[trigger] t[j], stop),
        k == t.len() || is_stop(t[k], stop),
    ensures
        prefix_len_until(t, stop) == k,
    decreases t.len(),
{
    if !(t.len() == 0 || is_stop(t[0], stop)) {
        let rest = t.subrange(1, t.len() as int);
        lemma_prefix_len_until_is(rest, stop, k - 1);
    }
}

pub proof fn lemma_prefix_len_until_range(t: Seq<char>, stop: ScanStop)
    ensures
        0 <= prefix_len_until(t, stop) <= t.len(),
    decreases t.len(),
{
    if !(t.len() == 0 || is_stop(t[0], stop)) {
        lemma_prefix_len_until_range(t.subrange(1, t.len() as int), stop);
    }
}

/// A prefix free of stop characters bounds `prefix_len_until` from below.
pub proof fn lemma_prefix_len_until_lower(t: Seq<char>, stop: ScanStop, m: int)
    requires
        0 <= m <= t.len(),
        forall|j: int| 0 <= j < m ==> !is_stop(#[trigger] t[j], stop),
    ensures
        prefix_len_until(t, stop) >= m,
    decreases t.len(),
{
    lemma_prefix_len_until_range(t, stop);
    if m > 0 && !(t.len() == 0 || is_stop(t[0], stop)) {
        let rest = t.subrange(1, t.len() as int);
        assert(forall|j: int| 0 <= j < m - 1 ==> !is_stop(#[trigger] rest[j], stop)) by {
            assert(forall|j: int| 0 <= j < m - 1 ==> rest[j] == #[trigger] t[j + 1]);
        };
        lemma_prefix_len_until_lower(rest, stop, m - 1);
    }
}

fn is_space_char(c: char) -> (r: bool)
    ensures
        r == is_space(c),
{
    c == ' ' || c == '\t' || c == '\n' || c == '\r' || c == '\u{b}' || c == '\u{c}'
}

/// The number of characters of `s` before the first whitespace: the
/// leading whitespace-delimited token's length.
pub fn token_len(s: &str) -> (n: usize)
    ensures
        n == prefix_len_until(s@, ScanStop::Space),
        0 <= n <= s@.len(),
{
    let len: usize = s.unicode_len();
    let mut i: usize = 0;
    while i < len && !is_space_char(s.get_char(i))
        invariant
            0 <= i <= len,
            len == s@.len(),
            forall|j: int| 0 <= j < i ==> !is_space(#[trigger] s@[j]),
        decreases len - i,
    {
        i = i + 1;
    }
    proof {
        lemma_prefix_len_until_is(s@, ScanStop::Space, i as int);
    }
    i
}

/// The digit character of `d`.
pub open spec fn dec_digit_char(d: int) -> char {
    if d == 0 {
        '0'
    } else if d == 1 {
        '1'
    } else if d == 2 {
        '2'
    } else if d == 3 {
        '3'
    } else if d == 4 {
        '4'
    } else if d == 5 {
        '5'
    } else if d == 6 {
        '6'
    } else if d == 7 {
        '7'
    } else if d == 8 {
        '8'
    } else {
        '9'
    }
}

/// Decimal digits of `n`, most significant first, no leading zeros (except
/// for zero itself).
pub open spec fn udec_seq(n: nat) -> Seq<char>
    decreases n,
{
    if n < 10 {
        seq![dec_digit_char(n as int)]
    } else {
        udec_seq(n / 10) + seq![dec_digit_char((n % 10) as int)]
    }
}

/// Decimal numeral of `v`: a minus sign, if negative, then the digits of
/// the magnitude.
pub open spec fn dec_seq_i64(v: int) -> Seq<char> {
    if v < 0 {
        seq!['-'] + udec_seq((-v) as nat)
    } else {
        udec_seq(v as nat)
    }
}

fn dec_digit_str(d: u64) -> (s: &'static str)
    requires
        d <= 9,
    ensures
        s@ =~= seq![dec_digit_char(d as int)],
{
    proof {
        reveal_strlit("0");
        reveal_strlit("1");
        reveal_strlit("2");
        reveal_strlit("3");
        reveal_strlit("4");
        reveal_strlit("5");
        reveal_strlit("6");
        reveal_strlit("7");
        reveal_strlit("8");
        reveal_strlit("9");
    }
    match d {
        0 => "0",
        1 => "1",
        2 => "2",
        3 => "3",
        4 => "4",
        5 => "5",
        6 => "6",
        7 => "7",
        8 => "8",
        _ => "9",
    }
}

/// The decimal digits of `n` as a string.
pub fn u64_to_dec_string(n: u64) -> (s: String)
    ensures
        s@ == udec_seq(n as nat),
    decreases n,
{
    if n < 10 {
        let mut s = String::new();
        s.append(dec_digit_str(n));
        assert(s@ =~= udec_seq(n as nat));
        s
    } else {
        let q: u64 = n / 10;
        let r: u64 = n % 10;
        let mut s = u64_to_dec_string(q);
        s.append(dec_digit_str(r));
        assert(s@ =~= udec_seq(n as nat));
        s
    }
}

/// The decimal numeral of `v` as a string.
pub fn i64_to_dec_string(v: i64) -> (s: String)
    ensures
        s@ == dec_seq_i64(v as int),
{
    if v >= 0 {
        let s = u64_to_dec_string(v as u64);
        assert(s@ =~= dec_seq_i64(v as int));
        s
    } else {
        let mag: u64 = (-(v as i128)) as u64;
        let mut s = String::new();
        proof {
            reveal_strlit("-");
        }
        s.append("-");
        let digits = u64_to_dec_string(mag);
        s.append(digits.as_str());
        assert(s@ =~= dec_seq_i64(v as int));
        s
    }
}

/// Whether the numeral is negated.
pub open spec fn spec_dec_neg(t: Seq<char>) -> bool {
    t.len() > 0 && t[0] == '-'
}

/// The numeral after its sign, if one stands.
pub open spec fn spec_dec_body(t: Seq<char>) -> Seq<char> {
    if t.len() > 0 && (t[0] == '-' || t[0] == '+') {
        t.subrange(1, t.len() as int)
    } else {
        t
    }
}

/// The mantissa: everything after the sign and before the exponent marker.
pub open spec fn spec_mantissa(t: Seq<char>) -> Seq<char> {
    let b = spec_dec_body(t);
    b.subrange(0, prefix_len_until(b, ScanStop::Exponent))
}

/// Whether an exponent marker stands in the numeral.
pub open spec fn spec_has_exp(t: Seq<char>) -> bool {
    prefix_len_until(spec_dec_body(t), ScanStop::Exponent) < spec_dec_body(t).len()
}

/// Everything after the exponent marker (empty when none stands).
pub open spec fn spec_exp_part(t: Seq<char>) -> Seq<char> {
    let b = spec_dec_body(t);
    let e = prefix_len_until(b, ScanStop::Exponent);
    if e < b.len() {
        b.subrange(e + 1, b.len() as int)
    } else {
        Seq::empty()
    }
}

pub open spec fn spec_exp_neg(t: Seq<char>) -> bool {
    spec_dec_neg(spec_exp_part(t))
}

pub open spec fn spec_exp_digits(t: Seq<char>) -> Seq<char> {
    spec_dec_body(spec_exp_part(t))
}

/// The digits before the decimal point.
pub open spec fn spec_dec_int_part(t: Seq<char>) -> Seq<char> {
    let m = spec_mantissa(t);
    m.subrange(0, prefix_len_until(m, ScanStop::Point))
}

/// The digits after the decimal point (empty when no point stands).
pub open spec fn spec_dec_frac_part(t: Seq<char>) -> Seq<char> {
    let m = spec_mantissa(t);
    let k = prefix_len_until(m, ScanStop::Point);
    if k < m.len() {
        m.subrange(k + 1, m.len() as int)
    } else {
        Seq::empty()
    }
}

/// The mantissa's value, scaled to an integer: integer digits shifted past
/// the fractional ones.
pub open spec fn spec_mant_val(t: Seq<char>) -> int {
    digits_val(spec_dec_int_part(t)) * pow10(spec_dec_frac_part(t).len()) + digits_val(
        spec_dec_frac_part(t),
    )
}

/// The written exponent (zero when none stands).
pub open spec fn spec_exp_val(t: Seq<char>) -> int {
    if spec_has_exp(t) {
        if spec_exp_neg(t) {
            -digits_val(spec_exp_digits(t))
        } else {
            digits_val(spec_exp_digits(t))
        }
    } else {
        0
    }
}

/// The net power of ten the scaled mantissa carries:
/// `value == mant_val * 10^net_scale`.
pub open spec fn spec_net_scale(t: Seq<char>) -> int {
    spec_exp_val(t) - spec_dec_frac_part(t).len()
}

/// Whether `t` is an acceptable decimal numeral: sign, digits, an optional
/// point with fractional digits, an optional signed exponent; at least one
/// mantissa digit, at most 9 integer, 6 fractional and 2 exponent digits,
/// and a denoted value whose exact numerator and denominator fit the
/// machine bounds (numerator within 10^15, denominator within 10^9).
pub open spec fn spec_parse_decimal_ok(t: Seq<char>) -> bool {
    &&& all_digits(spec_dec_int_part(t))
    &&& all_digits(spec_dec_frac_part(t))
    &&& spec_dec_int_part(t).len() + spec_dec_frac_part(t).len() >= 1
    &&& spec_dec_int_part(t).len() <= 9
    &&& spec_dec_frac_part(t).len() <= 6
    &&& (spec_has_exp(t) ==> {
        &&& 1 <= spec_exp_digits(t).len() <= 2
        &&& all_digits(spec_exp_digits(t))
    })
    &&& -9 <= spec_net_scale(t) <= 15
    &&& (spec_net_scale(t) >= 0 ==> spec_mant_val(t) * pow10(spec_net_scale(t) as nat)
        <= 1_000_000_000_000_000)
}

/// The numerator of the denoted rational.
pub open spec fn spec_parse_decimal_num(t: Seq<char>) -> int {
    let net = spec_net_scale(t);
    let mag = spec_mant_val(t) * pow10(
        if net >= 0 {
            net as nat
        } else {
            0
        },
    );
    if spec_dec_neg(t) {
        -mag
    } else {
        mag
    }
}

/// The denominator of the denoted rational.
pub open spec fn spec_parse_decimal_den(t: Seq<char>) -> int {
    let net = spec_net_scale(t);
    pow10(
        if net < 0 {
            (-net) as nat
        } else {
            0
        },
    )
}

fn pow10_u64(k: usize) -> (r: u64)
    requires
        k <= 15,
    ensures
        r == pow10(k as nat),
{
    proof {
        lemma_pow10_values();
    }
    match k {
        0 => 1,
        1 => 10,
        2 => 100,
        3 => 1_000,
        4 => 10_000,
        5 => 100_000,
        6 => 1_000_000,
        7 => 10_000_000,
        8 => 100_000_000,
        9 => 1_000_000_000,
        10 => 10_000_000_000,
        11 => 100_000_000_000,
        12 => 1_000_000_000_000,
        13 => 10_000_000_000_000,
        14 => 100_000_000_000_000,
        _ => 1_000_000_000_000_000,
    }
}

fn is_ascii_digit(c: char) -> (r: bool)
    ensures
        r == is_digit(c),
{
    let u = c as u32;
    48 <= u && u <= 57
}

proof fn lemma_pow10_values()
    ensures
        pow10(0) == 1,
        pow10(1) == 10,
        pow10(2) == 100,
        pow10(3) == 1_000,
        pow10(4) == 10_000,
        pow10(5) == 100_000,
        pow10(6) == 1_000_000,
        pow10(7) == 10_000_000,
        pow10(8) == 100_000_000,
        pow10(9) == 1_000_000_000,
        pow10(10) == 10_000_000_000,
        pow10(11) == 100_000_000_000,
        pow10(12) == 1_000_000_000_000,
        pow10(13) == 10_000_000_000_000,
        pow10(14) == 100_000_000_000_000,
        pow10(15) == 1_000_000_000_000_000,
{
    assert(pow10(0) == 1);
    assert(pow10(1) == 10);
    assert(pow10(2) == 100);
    assert(pow10(3) == 1_000);
    assert(pow10(4) == 10_000);
    assert(pow10(5) == 100_000);
    assert(pow10(6) == 1_000_000);
    assert(pow10(7) == 10_000_000);
    assert(pow10(8) == 100_000_000);
    assert(pow10(9) == 1_000_000_000);
    assert(pow10(10) == 10_000_000_000);
    assert(pow10(11) == 100_000_000_000);
    assert(pow10(12) == 1_000_000_000_000);
    assert(pow10(13) == 10_000_000_000_000);
    assert(pow10(14) == 100_000_000_000_000);
    assert(pow10(15) == 1_000_000_000_000_000);
}

/// Bounds of `pow10` under each digit-count cap the grammar uses.
proof fn lemma_pow10_bounds(k: nat)
    requires
        k <= 15,
    ensures
        1 <= pow10(k) <= 1_000_000_000_000_000,
        k <= 9 ==> pow10(k) <= 1_000_000_000,
        k <= 8 ==> pow10(k) <= 100_000_000,
        k <= 6 ==> pow10(k) <= 1_000_000,
        k <= 5 ==> pow10(k) <= 100_000,
        k <= 2 ==> pow10(k) <= 100,
        k <= 1 ==> pow10(k) <= 10,
{
    lemma_pow10_values();
    if k == 0 {
    } else if k == 1 {
    } else if k == 2 {
    } else if k == 3 {
    } else if k == 4 {
    } else if k == 5 {
    } else if k == 6 {
    } else if k == 7 {
    } else if k == 8 {
    } else if k == 9 {
    } else if k == 10 {
    } else if k == 11 {
    } else if k == 12 {
    } else if k == 13 {
    } else if k == 14 {
    } else {
        assert(k == 15);
    }
}

/// Parses a decimal numeral into the exact rational it denotes; rejects
/// anything outside the accepted grammar or its machine bounds.
#[verifier::rlimit(100)]
pub fn parse_decimal(t: &str) -> (r: Option<Ratio>)
    ensures
        r is Some <==> spec_parse_decimal_ok(t@),
        r matches Some(q) ==> {
            &&& q.num == spec_parse_decimal_num(t@)
            &&& q.den == spec_parse_decimal_den(t@)
            &&& q.wf()
            &&& 1 <= q.den <= 1_000_000_000
            &&& -1_000_000_000_000_000 <= q.num <= 1_000_000_000_000_000
        },
{
    let len: usize = t.unicode_len();
    let mut i: usize = 0;
    let mut neg: bool = false;
    if len > 0 {
        let c0 = t.get_char(0);
        if c0 == '-' {
            neg = true;
            i = 1;
        } else if c0 == '+' {
            i = 1;
        }
    }
    let ghost body = spec_dec_body(t@);
    let ghost start = i as int;
    proof {
        assert(body =~= t@.subrange(start, len as int));
        assert(neg == spec_dec_neg(t@));
    }
    // integer digits
    let mut acc: u64 = 0;
    let mut nd: usize = 0;
    while i < len && is_ascii_digit(t.get_char(i))
        invariant
            len == t@.len(),
            0 <= start <= i as int <= len,
            i as int == start + nd,
            0 <= nd <= 9,
            body == spec_dec_body(t@),
            body == t@.subrange(start, len as int),
            neg == spec_dec_neg(t@),
            forall|j: int| 0 <= j < nd ==> is_digit(#[trigger] body[j]),
            acc == digits_val(body.subrange(0, nd as int)),
            0 <= acc < pow10(nd as nat),
        decreases len - i,
    {
        proof {
            assert(body[nd as int] == t@[i as int]);
        }
        if nd == 9 {
            // a tenth integer digit: the numeral is too long to accept
            proof {
                lemma_too_many_int_digits(t@, body, nd + 1);
            }
            return None;
        }
        let c = t.get_char(i);
        let d: u64 = ((c as u32) - 48) as u64;
        proof {
            lemma_pow10_bounds(nd as nat);
            let pre = body.subrange(0, nd as int);
            assert(body.subrange(0, nd + 1) =~= pre.push(body[nd as int]));
            assert(pre.push(body[nd as int]).drop_last() =~= pre);
        }
        acc = acc * 10 + d;
        nd = nd + 1;
        i = i + 1;
    }
    // after the integer digits: optional point and fractional digits
    let mut facc: u64 = 0;
    let mut fd: usize = 0;
    let mut dot: bool = false;
    if i < len && t.get_char(i) == '.' {
        proof {
            assert(body[nd as int] == t@[i as int]);
        }
        dot = true;
        i = i + 1;
        let ghost fstart = i as int;
        while i < len && is_ascii_digit(t.get_char(i))
            invariant
                len == t@.len(),
                0 <= start,
                start + nd < fstart,
                fstart == start + nd + 1,
                fstart <= i as int <= len,
                i as int == fstart + fd,
                0 <= fd <= 6,
                0 <= nd <= 9,
                body == spec_dec_body(t@),
                body == t@.subrange(start, len as int),
                neg == spec_dec_neg(t@),
                forall|j: int| 0 <= j < nd ==> is_digit(#[trigger] body[j]),
                acc == digits_val(body.subrange(0, nd as int)),
                0 <= acc < pow10(nd as nat),
                body[nd as int] == '.',
                forall|j: int| nd + 1 <= j < nd + 1 + fd ==> is_digit(#[trigger] body[j]),
                facc == digits_val(body.subrange(nd + 1, nd + 1 + fd)),
                0 <= facc < pow10(fd as nat),
            decreases len - i,
        {
            proof {
                assert(body[nd + 1 + fd] == t@[i as int]);
            }
            if fd == 6 {
                // a seventh fractional digit: too long to accept
                proof {
                    lemma_too_many_frac_digits(t@, body, nd as int, fd + 1);
                }
                return None;
            }
            let c = t.get_char(i);
            let d: u64 = ((c as u32) - 48) as u64;
            proof {
                lemma_pow10_bounds(fd as nat);
                let pre = body.subrange(nd + 1, nd + 1 + fd);
                assert(body.subrange(nd + 1, nd + 1 + fd + 1) =~= pre.push(body[nd + 1 + fd]));
                assert(pre.push(body[nd + 1 + fd]).drop_last() =~= pre);
            }
            facc = facc * 10 + d;
            fd = fd + 1;
            i = i + 1;
        }
    }
    // after the mantissa: the end, an exponent marker, or a reject
    let ghost scanned = i as int - start;
    let mut has_exp: bool = false;
    if i < len {
        let c = t.get_char(i);
        if c == 'e' || c == 'E' {
            has_exp = true;
        } else {
            // neither a digit, a point, an exponent marker nor the end
            proof {
                assert(body[i as int - start] == t@[i as int]);
                lemma_mantissa_garbage(t@, body, nd as int, fd as int, dot, i as int - start);
            }
            return None;
        }
    }
    proof {
        if has_exp {
            assert(body[scanned] == t@[i as int]);
        }
        lemma_pin_mantissa(t@, body, nd as int, fd as int, dot, scanned, has_exp);
    }
    if !has_exp {
        if nd == 0 && fd == 0 {
            // no digit at all
            return None;
        }
        let scale: u64 = pow10_u64(fd);
        proof {
            lemma_pow10_bounds(fd as nat);
            lemma_pow10_bounds(nd as nat);
            assert(acc * scale <= 999_999_999 * 1_000_000) by (nonlinear_arith)
                requires
                    0 <= acc <= 999_999_999,
                    0 <= scale <= 1_000_000,
            ;
            assert(spec_parse_decimal_ok(t@));
        }
        let mag: u64 = acc * scale + facc;
        let num: i64 = if neg {
            -(mag as i64)
        } else {
            mag as i64
        };
        return Some(Ratio { num, den: scale as i64 });
    }
    // the exponent: an optional sign, then one or two digits to the end
    i = i + 1;
    proof {
        assert(spec_exp_part(t@) =~= t@.subrange(i as int, len as int));
    }
    parse_exponent_tail(t, i, neg, nd, fd, acc, facc)
}

/// Parses the exponent (sign and digits standing at `i`, to the end) and
/// assembles the numeral's exact rational from the already-scanned
/// mantissa digits.
#[verifier::rlimit(100)]
fn parse_exponent_tail(
    t: &str,
    exp_from: usize,
    neg: bool,
    nd: usize,
    fd: usize,
    acc: u64,
    facc: u64,
) -> (r: Option<Ratio>)
    requires
        exp_from as int <= t@.len(),
        spec_has_exp(t@),
        spec_exp_part(t@) == t@.subrange(exp_from as int, t@.len() as int),
        neg == spec_dec_neg(t@),
        0 <= nd <= 9,
        0 <= fd <= 6,
        spec_dec_int_part(t@).len() == nd,
        all_digits(spec_dec_int_part(t@)),
        acc == digits_val(spec_dec_int_part(t@)),
        0 <= acc < pow10(nd as nat),
        spec_dec_frac_part(t@).len() == fd,
        all_digits(spec_dec_frac_part(t@)),
        facc == digits_val(spec_dec_frac_part(t@)),
        0 <= facc < pow10(fd as nat),
    ensures
        r is Some <==> spec_parse_decimal_ok(t@),
        r matches Some(q) ==> {
            &&& q.num == spec_parse_decimal_num(t@)
            &&& q.den == spec_parse_decimal_den(t@)
            &&& q.wf()
            &&& 1 <= q.den <= 1_000_000_000
            &&& -1_000_000_000_000_000 <= q.num <= 1_000_000_000_000_000
        },
{
    let len: usize = t.unicode_len();
    let mut i: usize = exp_from;
    let ghost epart = spec_exp_part(t@);
    let mut eneg: bool = false;
    if i < len {
        let c = t.get_char(i);
        if c == '-' {
            eneg = true;
            i = i + 1;
        } else if c == '+' {
            i = i + 1;
        }
    }
    let ghost edigits = spec_exp_digits(t@);
    let ghost estart = i as int;
    proof {
        assert(edigits =~= t@.subrange(estart, len as int));
        assert(eneg == spec_exp_neg(t@));
    }
    let mut eacc: u64 = 0;
    let mut ed: usize = 0;
    while i < len && is_ascii_digit(t.get_char(i))
        invariant
            len == t@.len(),
            0 <= estart <= i as int <= len,
            i as int == estart + ed,
            0 <= ed <= 2,
            edigits == spec_exp_digits(t@),
            edigits == t@.subrange(estart, len as int),
            forall|j: int| 0 <= j < ed ==> is_digit(#[trigger] edigits[j]),
            eacc == digits_val(edigits.subrange(0, ed as int)),
            0 <= eacc < pow10(ed as nat),
            neg == spec_dec_neg(t@),
            eneg == spec_exp_neg(t@),
            spec_has_exp(t@),
            0 <= nd <= 9,
            0 <= fd <= 6,
            spec_dec_int_part(t@).len() == nd,
            all_digits(spec_dec_int_part(t@)),
            acc == digits_val(spec_dec_int_part(t@)),
            0 <= acc < pow10(nd as nat),
            spec_dec_frac_part(t@).len() == fd,
            all_digits(spec_dec_frac_part(t@)),
            facc == digits_val(spec_dec_frac_part(t@)),
            0 <= facc < pow10(fd as nat),
        decreases len - i,
    {
        proof {
            assert(edigits[ed as int] == t@[i as int]);
        }
        if ed == 2 {
            // a third exponent digit: out of the machine bounds
            proof {
                assert(edigits.len() >= 3);
            }
            return None;
        }
        let c = t.get_char(i);
        let d: u64 = ((c as u32) - 48) as u64;
        proof {
            lemma_pow10_bounds(ed as nat);
            let pre = edigits.subrange(0, ed as int);
            assert(edigits.subrange(0, ed + 1) =~= pre.push(edigits[ed as int]));
            assert(pre.push(edigits[ed as int]).drop_last() =~= pre);
        }
        eacc = eacc * 10 + d;
        ed = ed + 1;
        i = i + 1;
    }
    if i < len {
        // something after the exponent digits: reject
        proof {
            assert(edigits[ed as int] == t@[i as int]);
            assert(!is_digit(edigits[ed as int]));
        }
        return None;
    }
    proof {
        assert(edigits =~= edigits.subrange(0, ed as int));
    }
    if ed == 0 {
        // an exponent marker without digits
        return None;
    }
    if nd == 0 && fd == 0 {
        // no mantissa digit at all
        return None;
    }
    // assemble the exact rational mant * 10^(exp - frac digits)
    proof {
        lemma_pow10_bounds(ed as nat);
    }
    let g: i64 = if eneg {
        -(eacc as i64)
    } else {
        eacc as i64
    };
    let net: i64 = g - (fd as i64);
    proof {
        assert(net == spec_net_scale(t@));
    }
    if net < -9 || net > 15 {
        return None;
    }
    let scale: u64 = pow10_u64(fd);
    proof {
        lemma_pow10_bounds(fd as nat);
        lemma_pow10_bounds(nd as nat);
        assert(acc * scale <= 999_999_999 * 1_000_000) by (nonlinear_arith)
            requires
                0 <= acc <= 999_999_999,
                0 <= scale <= 1_000_000,
        ;
    }
    let mag: u64 = acc * scale + facc;
    proof {
        assert(mag == spec_mant_val(t@));
    }
    if net >= 0 {
        let p: u64 = pow10_u64(net as usize);
        proof {
            lemma_pow10_bounds(net as nat);
            assert((mag as int) * (p as int) <= 1_000_000_000_000_000 * 1_000_000_000_000_000)
                by (nonlinear_arith)
                requires
                    0 <= mag as int <= 1_000_000_000_000_000,
                    0 <= p as int <= 1_000_000_000_000_000,
            ;
        }
        let wide: u128 = (mag as u128) * (p as u128);
        if wide > 1_000_000_000_000_000u128 {
            // the denoted numerator is out of the machine bounds
            return None;
        }
        proof {
            lemma_pow10_bounds(net as nat);
            assert(spec_parse_decimal_ok(t@));
        }
        let scaled: u64 = wide as u64;
        let num: i64 = if neg {
            -(scaled as i64)
        } else {
            scaled as i64
        };
        Some(Ratio { num, den: 1 })
    } else {
        proof {
            lemma_pow10_bounds((-net) as nat);
            assert(spec_parse_decimal_ok(t@));
        }
        let den: u64 = pow10_u64((-net) as usize);
        let num: i64 = if neg {
            -(mag as i64)
        } else {
            mag as i64
        };
        Some(Ratio { num, den: den as i64 })
    }
}

/// Ten leading digits after the sign leave the integer part too long.
proof fn lemma_too_many_int_digits(t: Seq<char>, body: Seq<char>, m: int)
    requires
        body == spec_dec_body(t),
        0 <= m <= body.len(),
        m >= 10,
        forall|j: int| 0 <= j < m ==> is_digit(#[trigger] body[j]),
    ensures
        !spec_parse_decimal_ok(t),
{
    assert(forall|j: int| 0 <= j < m ==> !is_stop(#[trigger] body[j], ScanStop::Exponent));
    lemma_prefix_len_until_lower(body, ScanStop::Exponent, m);
    lemma_prefix_len_until_range(body, ScanStop::Exponent);
    let mant = spec_mantissa(t);
    assert(mant.len() >= m);
    assert(forall|j: int| 0 <= j < m ==> mant[j] == #[trigger] body[j]);
    assert(forall|j: int| 0 <= j < m ==> !is_stop(#[trigger] mant[j], ScanStop::Point));
    lemma_prefix_len_until_lower(mant, ScanStop::Point, m);
    lemma_prefix_len_until_range(mant, ScanStop::Point);
    assert(spec_dec_int_part(t).len() >= m);
}

/// Seven digits after the point leave the fractional part too long.
proof fn lemma_too_many_frac_digits(t: Seq<char>, body: Seq<char>, nd: int, m: int)
    requires
        body == spec_dec_body(t),
        0 <= nd,
        nd + 1 + m <= body.len(),
        m >= 7,
        forall|j: int| 0 <= j < nd ==> is_digit(#[trigger] body[j]),
        body[nd] == '.',
        forall|j: int| nd + 1 <= j < nd + 1 + m ==> is_digit(#[trigger] body[j]),
    ensures
        !spec_parse_decimal_ok(t),
{
    assert(forall|j: int| 0 <= j < nd + 1 + m ==> !is_stop(#[trigger] body[j], ScanStop::Exponent));
    lemma_prefix_len_until_lower(body, ScanStop::Exponent, nd + 1 + m);
    lemma_prefix_len_until_range(body, ScanStop::Exponent);
    let mant = spec_mantissa(t);
    assert(mant.len() >= nd + 1 + m);
    assert(forall|j: int| 0 <= j < nd + 1 + m ==> mant[j] == #[trigger] body[j]);
    assert(forall|j: int| 0 <= j < nd ==> !is_stop(#[trigger] mant[j], ScanStop::Point));
    assert(is_stop(mant[nd], ScanStop::Point));
    lemma_prefix_len_until_is(mant, ScanStop::Point, nd);
    assert(spec_dec_frac_part(t).len() == mant.len() - nd - 1);
    assert(spec_dec_frac_part(t).len() >= m);
}

/// A character that is neither a digit, a point (in place), an exponent
/// marker nor the end breaks the grammar.
proof fn lemma_mantissa_garbage(t: Seq<char>, body: Seq<char>, nd: int, fd: int, dot: bool, at: int)
    requires
        body == spec_dec_body(t),
        0 <= nd,
        0 <= fd,
        dot ==> at == nd + 1 + fd && nd + 1 + fd < body.len() && body[nd] == '.' && (forall|j: int|
            nd + 1 <= j < nd + 1 + fd ==> is_digit(#[trigger] body[j])),
        !dot ==> at == nd && fd == 0 && nd < body.len(),
        forall|j: int| 0 <= j < nd ==> is_digit(#[trigger] body[j]),
        !is_digit(body[at]),
        !(body[at] == '.') || dot,
        !is_stop(body[at], ScanStop::Exponent),
    ensures
        !spec_parse_decimal_ok(t),
{
    assert(forall|j: int| 0 <= j <= at ==> !is_stop(#[trigger] body[j], ScanStop::Exponent));
    lemma_prefix_len_until_lower(body, ScanStop::Exponent, at + 1);
    lemma_prefix_len_until_range(body, ScanStop::Exponent);
    let mant = spec_mantissa(t);
    assert(mant.len() >= at + 1);
    assert(forall|j: int| 0 <= j <= at ==> mant[j] == #[trigger] body[j]);
    if dot {
        assert(forall|j: int| 0 <= j < nd ==> !is_stop(#[trigger] mant[j], ScanStop::Point));
        assert(is_stop(mant[nd], ScanStop::Point));
        lemma_prefix_len_until_is(mant, ScanStop::Point, nd);
        let frac = spec_dec_frac_part(t);
        assert(frac[fd] == mant[nd + 1 + fd]);
        assert(!is_digit(frac[fd]));
    } else {
        assert(forall|j: int| 0 <= j <= at ==> !is_stop(#[trigger] mant[j], ScanStop::Point));
        lemma_prefix_len_until_lower(mant, ScanStop::Point, at + 1);
        lemma_prefix_len_until_range(mant, ScanStop::Point);
        let int_part = spec_dec_int_part(t);
        assert(int_part[at] == mant[at]);
        assert(!is_digit(int_part[at]));
    }
}

/// After the mantissa scan the decomposition is pinned: the integer and
/// fractional parts are exactly the scanned digit runs, and the exponent
/// marker stands exactly where the scan stopped (or nowhere).
proof fn lemma_pin_mantissa(
    t: Seq<char>,
    body: Seq<char>,
    nd: int,
    fd: int,
    dot: bool,
    scanned: int,
    has_exp: bool,
)
    requires
        body == spec_dec_body(t),
        0 <= nd,
        0 <= fd,
        dot ==> scanned == nd + 1 + fd && nd < body.len() && body[nd] == '.' && (forall|j: int|
            nd + 1 <= j < nd + 1 + fd ==> is_digit(#[trigger] body[j])),
        !dot ==> scanned == nd && fd == 0,
        scanned <= body.len(),
        forall|j: int| 0 <= j < nd ==> is_digit(#[trigger] body[j]),
        has_exp ==> scanned < body.len() && is_stop(body[scanned], ScanStop::Exponent),
        !has_exp ==> scanned == body.len(),
    ensures
        spec_has_exp(t) == has_exp,
        spec_mantissa(t) == body.subrange(0, scanned),
        spec_dec_int_part(t) == body.subrange(0, nd),
        all_digits(spec_dec_int_part(t)),
        spec_dec_int_part(t).len() == nd,
        spec_dec_frac_part(t) == if dot {
            body.subrange(nd + 1, nd + 1 + fd)
        } else {
            Seq::<char>::empty()
        },
        all_digits(spec_dec_frac_part(t)),
        spec_dec_frac_part(t).len() == fd,
        has_exp ==> spec_exp_part(t) =~= body.subrange(scanned + 1, body.len() as int),
{
    assert(forall|j: int| 0 <= j < scanned ==> !is_stop(#[trigger] body[j], ScanStop::Exponent));
    lemma_prefix_len_until_is(body, ScanStop::Exponent, scanned);
    let mant = spec_mantissa(t);
    assert(mant =~= body.subrange(0, scanned));
    if dot {
        assert(forall|j: int| 0 <= j < nd ==> !is_stop(#[trigger] mant[j], ScanStop::Point));
        assert(is_stop(mant[nd], ScanStop::Point));
        lemma_prefix_len_until_is(mant, ScanStop::Point, nd);
        assert(spec_dec_int_part(t) =~= body.subrange(0, nd));
        assert(spec_dec_frac_part(t) =~= body.subrange(nd + 1, nd + 1 + fd));
        assert(all_digits(spec_dec_frac_part(t)));
    } else {
        assert(forall|j: int| 0 <= j < scanned ==> !is_stop(#[trigger] mant[j], ScanStop::Point));
        lemma_prefix_len_until_is(mant, ScanStop::Point, scanned);
        assert(spec_dec_int_part(t) =~= body.subrange(0, nd));
        assert(spec_dec_frac_part(t) =~= Seq::<char>::empty());
    }
    assert(all_digits(spec_dec_int_part(t)));
}

} // verus!
