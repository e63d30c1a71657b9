//! Reading the sizes that the Docker CLI writes, such as `1.5GB`, `250MB`,
//! `1.2kB` or `0B`.
//!
//! A size is a decimal number and a unit. The number may carry a power of
//! ten (`1E3`) or be infinite (`inf`). What a size denotes is computed
//! exactly, in whole numbers, and rounded down to whole bytes: a binary
//! floating-point reading of the same text rounds the number first, and can
//! be one byte off where the number has more digits than such a reading
//! keeps, about seventeen.

use crate::numbers::{
    all_digits, capped, decimal, decimal_text, digit_value, digits_value, lemma_decimal_reads_back,
    lemma_digits_value_bound, lemma_digits_value_concat, lemma_pow10_adds, pow10, read_capped,
    signed_value,
};
use crate::sizes::{GB, KB, MB};
use crate::text::{
    char_is_digit, ends_with, finishes_with, is_digit, is_text, push_all, raised, slice, to_chars,
    to_upper, trim, trimmed,
};
use crate::tokens::{rows, split, split_on};
use vstd::prelude::*;

verus! {

/// The number part of a size and the bytes of its unit. The unit is `GB`,
/// `MB`, `KB` or `B`, in upper case; a size without unit is in bytes.
pub open spec fn size_unit(t: Seq<char>) -> (Seq<char>, u64) {
    if ends_with(t, "GB"@) {
        (t.subrange(0, t.len() - 2), GB)
    } else if ends_with(t, "MB"@) {
        (t.subrange(0, t.len() - 2), MB)
    } else if ends_with(t, "KB"@) {
        (t.subrange(0, t.len() - 2), KB)
    } else if ends_with(t, "B"@) {
        (t.subrange(0, t.len() - 1), 1)
    } else {
        (t, 1)
    }
}

/// The parts of a decimal number: whether it is negative, the digits before
/// the point and the digits behind it. A number is an optional sign, digits,
/// and at most one point among them; it has at least one digit.
pub open spec fn decimal_parts(number: Seq<char>) -> Option<(bool, Seq<char>, Seq<char>)> {
    let signed = number.len() > 0 && (number[0] == '-' || number[0] == '+');
    let body = if signed {
        number.drop_first()
    } else {
        number
    };
    let parts = split_on(body, '.');
    let whole = parts[0];
    let fraction = if parts.len() == 2 {
        parts[1]
    } else {
        Seq::<char>::empty()
    };
    if parts.len() <= 2 && all_digits(whole) && all_digits(fraction) && whole.len()
        + fraction.len() > 0 {
        Some((signed && number[0] == '-', whole, fraction))
    } else {
        None
    }
}

/// The whole bytes in a decimal number of units: the number times the unit,
/// rounded down.
pub open spec fn scaled(whole: Seq<char>, fraction: Seq<char>, unit: u64) -> nat {
    (digits_value(whole + fraction) * unit as nat) / pow10(fraction.len())
}

/// A number and its power of ten: the text before an `E`, and the signed
/// numeral behind it; without an `E` the power is 0. `None` where there is
/// more than one `E` or no numeral behind it.
pub open spec fn exponent_parts(number: Seq<char>) -> Option<(Seq<char>, int)> {
    let parts = split_on(number, 'E');
    if parts.len() == 1 {
        Some((number, 0))
    } else if parts.len() == 2 {
        match signed_value(parts[1]) {
            Some(e) => Some((parts[0], e)),
            None => None,
        }
    } else {
        None
    }
}

/// The whole bytes in a decimal number of units times a power of ten: the
/// point moves by the exponent, and what is left behind it is dropped.
pub open spec fn shifted(whole: Seq<char>, fraction: Seq<char>, exponent: int, unit: u64) -> nat {
    let d = digits_value(whole + fraction) * unit as nat;
    let places = fraction.len() - exponent;
    if places >= 0 {
        d / pow10(places as nat)
    } else {
        d * pow10((-places) as nat)
    }
}

/// The bytes of a number that is written in digits, with or without a power
/// of ten: 0 where it is negative, the largest count where it does not fit;
/// `None` where the text is no such number.
pub open spec fn finite_size(number: Seq<char>, unit: u64) -> Option<u64> {
    match exponent_parts(number) {
        Some((mantissa, exponent)) => match decimal_parts(mantissa) {
            Some((negative, whole, fraction)) => Some(
                if negative {
                    0
                } else {
                    capped(shifted(whole, fraction, exponent, unit))
                },
            ),
            None => None,
        },
        None => None,
    }
}

/// Whether a text, in upper case, names the infinite number that is not
/// negative.
pub open spec fn is_infinite(number: Seq<char>) -> bool {
    number == "INF"@ || number == "+INF"@ || number == "INFINITY"@ || number == "+INFINITY"@
}

/// What a size string denotes in bytes, whatever the case of its unit. The
/// number is digits with at most one point, an optional sign before them and
/// an optional power of ten behind them (`1.5`, `.5`, `+2`, `1E3`, `2.5E-1`),
/// or one of the words `INF` and `INFINITY`. A negative size is 0 bytes, a
/// size that does not fit is the largest count and so is an infinite one, and
/// any other text, `NAN` among them, is 0 bytes.
pub open spec fn docker_size(s: Seq<char>) -> u64 {
    let (number, unit) = size_unit(raised(trimmed(s)));
    match finite_size(number, unit) {
        Some(bytes) => bytes,
        None => if is_infinite(number) {
            u64::MAX
        } else {
            0
        },
    }
}

/// Without a power of ten, a number of units is its digits times the unit,
/// rounded down.
pub proof fn lemma_plain_size(number: Seq<char>, unit: u64)
    requires
        !number.contains('E'),
    ensures
        finite_size(number, unit) == match decimal_parts(number) {
            Some((negative, whole, fraction)) => Some(
                if negative {
                    0
                } else {
                    capped(scaled(whole, fraction, unit))
                },
            ),
            None => None,
        },
{
    crate::tokens::lemma_split_on_plain(number, 'E');
}

proof fn lemma_digits_value_cons(c: char, rest: Seq<char>)
    ensures
        digits_value(seq![c] + rest) == digit_value(c) * pow10(rest.len()) + digits_value(rest),
{
    lemma_digits_value_concat(seq![c], rest);
    let one = seq![c];
    assert(one.drop_last() =~= Seq::<char>::empty());
    assert(one.last() == c);
    assert(digits_value(one.drop_last()) == 0);
    assert(digits_value(one) == digits_value(one.drop_last()) * 10 + digit_value(one.last()));
    assert(digits_value(one) == digit_value(c));
}

fn are_digits(v: &Vec<char>) -> (r: bool)
    ensures
        r == all_digits(v@),
{
    let mut i: usize = 0;
    while i < v.len()
        invariant
            i <= v.len(),
            forall|k: int| 0 <= k < i ==> is_digit(#[trigger] v@[k]),
        decreases v.len() - i,
    {
        if !char_is_digit(v[i]) {
            return false;
        }
        i += 1;
    }
    true
}

/// The digits of `digits` times `unit`: a carry and as many digits as there
/// were.
fn times(digits: &Vec<char>, unit: u64) -> (r: (u64, Vec<char>))
    requires
        all_digits(digits@),
        1 <= unit <= GB,
    ensures
        r.1@.len() == digits@.len(),
        all_digits(r.1@),
        digits_value(r.1@) + r.0 * pow10(digits@.len()) == unit * digits_value(digits@),
{
    let n = digits.len();
    let mut out: Vec<char> = Vec::new();
    push_all(&mut out, digits);
    assert(out@ =~= digits@);
    let mut carry: u64 = 0;
    let mut i: usize = n;
    assert(out@.subrange(n as int, n as int) =~= Seq::<char>::empty());
    assert(digits@.subrange(n as int, n as int) =~= Seq::<char>::empty());
    while i > 0
        invariant
            i <= n,
            n == digits@.len(),
            out@.len() == n,
            all_digits(digits@),
            1 <= unit <= GB,
            carry <= unit,
            all_digits(out@.subrange(i as int, n as int)),
            digits_value(out@.subrange(i as int, n as int)) + carry * pow10((n - i) as nat)
                == unit * digits_value(digits@.subrange(i as int, n as int)),
        decreases i,
    {
        let ghost s_out = out@.subrange(i as int, n as int);
        let ghost s_in = digits@.subrange(i as int, n as int);
        let ghost p = pow10((n - i) as nat);
        let ghost c0 = carry;
        i -= 1;
        assert(is_digit(digits@[i as int]));
        let d: u64 = (digits[i] as u32 - 48) as u64;
        assert(d * unit <= 9 * 1073741824) by (nonlinear_arith)
            requires
                d <= 9,
                unit <= 1073741824,
        ;
        assert(d * unit <= 9 * unit) by (nonlinear_arith)
            requires
                d <= 9,
        ;
        let t: u64 = d * unit + carry;
        let digit: u8 = (t % 10) as u8;
        let ch: char = (48 + digit) as char;
        out.set(i, ch);
        carry = t / 10;
        proof {
            let s_out2 = out@.subrange(i as int, n as int);
            let s_in2 = digits@.subrange(i as int, n as int);
            assert(s_out2 =~= seq![ch] + s_out);
            assert(s_in2 =~= seq![digits@[i as int]] + s_in);
            lemma_digits_value_cons(ch, s_out);
            lemma_digits_value_cons(digits@[i as int], s_in);
            assert(digit_value(ch) == t % 10);
            assert(digit_value(digits@[i as int]) == d);
            assert(pow10((n - i) as nat) == 10 * p);
            let vo = digits_value(s_out) as int;
            let vi = digits_value(s_in) as int;
            let pp = p as int;
            let tt = t as int;
            let dd = d as int;
            let uu = unit as int;
            let cc = c0 as int;
            assert((tt % 10) * pp + vo + (tt / 10) * (10 * pp) == uu * (dd * pp + vi))
                by (nonlinear_arith)
                requires
                    vo + cc * pp == uu * vi,
                    tt == dd * uu + cc,
                    tt >= 0,
            ;
            assert forall|k: int| 0 <= k < s_out2.len() implies is_digit(#[trigger] s_out2[k]) by {
                if k > 0 {
                    assert(s_out2[k] == s_out[k - 1]);
                }
            }
        }
    }
    assert(out@.subrange(0, n as int) =~= out@);
    assert(digits@.subrange(0, n as int) =~= digits@);
    (carry, out)
}

/// The whole bytes in a decimal number of units.
fn scale(whole: &Vec<char>, fraction: &Vec<char>, unit: u64) -> (r: u64)
    requires
        all_digits(whole@),
        all_digits(fraction@),
        1 <= unit <= GB,
    ensures
        r == capped(scaled(whole@, fraction@, unit)),
{
    let mut digits: Vec<char> = Vec::new();
    push_all(&mut digits, whole);
    push_all(&mut digits, fraction);
    assert(digits@ =~= whole@ + fraction@);
    assert forall|k: int| 0 <= k < digits@.len() implies is_digit(#[trigger] digits@[k]) by {
        if k < whole@.len() {
            assert(digits@[k] == whole@[k]);
        } else {
            assert(digits@[k] == fraction@[k - whole@.len()]);
        }
    }
    let (carry, product) = times(&digits, unit);
    let w = whole.len();
    let head = slice(&product, 0, w);
    let mut text = decimal_text(carry);
    push_all(&mut text, &head);
    proof {
        let f = fraction@.len();
        let tail = product@.subrange(w as int, product@.len() as int);
        assert(product@ =~= head@ + tail);
        assert forall|k: int| 0 <= k < head@.len() implies is_digit(#[trigger] head@[k]) by {
            assert(head@[k] == product@[k]);
        }
        assert forall|k: int| 0 <= k < tail.len() implies is_digit(#[trigger] tail[k]) by {
            assert(tail[k] == product@[k + w]);
        }
        lemma_digits_value_concat(head@, tail);
        lemma_digits_value_bound(tail);
        lemma_pow10_adds(w as nat, f);
        lemma_pow10_adds(f, 0);
        lemma_decimal_reads_back(carry as nat);
        lemma_digits_value_concat(decimal(carry as nat), head@);
        assert forall|k: int| 0 <= k < text@.len() implies is_digit(#[trigger] text@[k]) by {
            if k < decimal(carry as nat).len() {
                assert(text@[k] == decimal(carry as nat)[k]);
            } else {
                assert(text@[k] == head@[k - decimal(carry as nat).len()]);
            }
        }
        let vh = digits_value(head@) as int;
        let vt = digits_value(tail) as int;
        let pf = pow10(f) as int;
        let pw = pow10(w as nat) as int;
        let c = carry as int;
        let total = (unit * digits_value(digits@)) as int;
        assert(total == vh * pf + vt + c * (pw * pf));
        assert(total / pf == c * pw + vh) by (nonlinear_arith)
            requires
                total == vh * pf + vt + c * (pw * pf),
                0 <= vt < pf,
                pf >= 1,
        ;
        assert(digits_value(digits@) * unit as nat == unit * digits_value(digits@))
            by (nonlinear_arith);
        assert(digits_value(text@) == c * pw + vh);
    }
    read_capped(&text)
}

/// Ten thousand million, and its square.
proof fn lemma_pow10_values()
    ensures
        pow10(10) == 10000000000,
        pow10(20) == 100000000000000000000,
{
    assert(pow10(0) == 1);
    assert(pow10(1) == 10 * pow10(0));
    assert(pow10(2) == 10 * pow10(1));
    assert(pow10(3) == 10 * pow10(2));
    assert(pow10(4) == 10 * pow10(3));
    assert(pow10(5) == 10 * pow10(4));
    assert(pow10(6) == 10 * pow10(5));
    assert(pow10(7) == 10 * pow10(6));
    assert(pow10(8) == 10 * pow10(7));
    assert(pow10(9) == 10 * pow10(8));
    assert(pow10(10) == 10 * pow10(9));
    lemma_pow10_adds(10, 10);
}

/// A larger power of ten is not smaller.
proof fn lemma_pow10_grows(a: nat, b: nat)
    requires
        a <= b,
    ensures
        pow10(a) <= pow10(b),
{
    lemma_pow10_adds(a, (b - a) as nat);
    lemma_pow10_adds((b - a) as nat, 0);
    let x = pow10(a) as int;
    let y = pow10((b - a) as nat) as int;
    assert(x <= x * y) by (nonlinear_arith)
        requires
            x >= 1,
            y >= 1,
    ;
}

/// A run of zeros.
pub open spec fn zeros(n: nat) -> Seq<char> {
    Seq::new(n, |i: int| '0')
}

proof fn lemma_zeros(n: nat)
    ensures
        all_digits(zeros(n)),
        digits_value(zeros(n)) == 0,
    decreases n,
{
    if n > 0 {
        lemma_zeros((n - 1) as nat);
        assert(zeros(n).drop_last() =~= zeros((n - 1) as nat));
        assert(zeros(n).last() == '0');
    }
}

fn zeros_of(n: usize) -> (r: Vec<char>)
    ensures
        r@ == zeros(n as nat),
{
    let mut out: Vec<char> = Vec::new();
    let mut i: usize = 0;
    while i < n
        invariant
            i <= n,
            out@.len() == i,
            forall|k: int| 0 <= k < i ==> out@[k] == '0',
        decreases n - i,
    {
        out.push('0');
        i += 1;
    }
    assert(out@ =~= zeros(n as nat));
    out
}

/// From this power of ten on, powers are not told apart: each of them moves
/// any number of digits that a text can hold out of range.
pub const EXPONENT_BOUND: u128 = 0x400000000000000000;

/// A power of ten as far as it is told apart from larger ones.
pub open spec fn bounded(n: nat) -> u128 {
    if n >= EXPONENT_BOUND {
        EXPONENT_BOUND
    } else {
        n as u128
    }
}

fn read_bounded(v: &Vec<char>) -> (r: u128)
    requires
        all_digits(v@),
    ensures
        r == bounded(digits_value(v@)),
{
    let mut acc: u128 = 0;
    let mut i: usize = 0;
    assert(v@.subrange(0, 0) =~= Seq::<char>::empty());
    while i < v.len()
        invariant
            i <= v.len(),
            all_digits(v@),
            acc == bounded(digits_value(v@.subrange(0, i as int))),
        decreases v.len() - i,
    {
        assert(v@.subrange(0, i + 1).drop_last() =~= v@.subrange(0, i as int));
        assert(v@.subrange(0, i + 1).last() == v@[i as int]);
        assert(is_digit(v@[i as int]));
        let d: u128 = (v[i] as u32 - 48) as u128;
        assert(d == digit_value(v@[i as int]));
        let next: u128 = acc * 10 + d;
        acc = if next >= EXPONENT_BOUND {
            EXPONENT_BOUND
        } else {
            next
        };
        i += 1;
    }
    assert(v@.subrange(0, v.len() as int) =~= v@);
    acc
}

/// The whole bytes in a decimal number of units times a power of ten. The
/// power comes as its sign and as its size, bounded.
fn shift_scale(
    whole: &Vec<char>,
    fraction: &Vec<char>,
    down: bool,
    power: u128,
    unit: u64,
    Ghost(exponent): Ghost<int>,
) -> (r: u64)
    requires
        all_digits(whole@),
        all_digits(fraction@),
        1 <= unit <= GB,
        down ==> exponent <= 0 && power == bounded((-exponent) as nat),
        !down ==> exponent >= 0 && power == bounded(exponent as nat),
    ensures
        r == capped(shifted(whole@, fraction@, exponent, unit)),
{
    let mut digits: Vec<char> = Vec::new();
    push_all(&mut digits, whole);
    push_all(&mut digits, fraction);
    assert(digits@ =~= whole@ + fraction@);
    assert forall|k: int| 0 <= k < digits@.len() implies is_digit(#[trigger] digits@[k]) by {
        if k < whole@.len() {
            assert(digits@[k] == whole@[k]);
        } else {
            assert(digits@[k] == fraction@[k - whole@.len()]);
        }
    }
    let count: usize = digits.len();
    let behind: usize = fraction.len();
    let ghost value = digits_value(digits@);
    let ghost product = value * unit as nat;
    let ghost places = behind - exponent;
    let empty: Vec<char> = Vec::new();
    assert(empty@ =~= Seq::<char>::empty());
    proof {
        lemma_pow10_values();
        lemma_digits_value_bound(digits@);
    }
    if !down && power >= behind as u128 {
        // The point moves to the right of every digit.
        let gap: u128 = power - behind as u128;
        if gap >= 20 {
            let none = read_capped(&digits) == 0;
            proof {
                let right = (-places) as nat;
                assert(right >= 20);
                lemma_pow10_grows(20, right);
                let p = pow10(right) as int;
                let x = product as int;
                if value > 0 {
                    assert(x >= 1) by (nonlinear_arith)
                        requires
                            x == value * unit,
                            value >= 1,
                            unit >= 1,
                    ;
                    assert(x * p >= p) by (nonlinear_arith)
                        requires
                            x >= 1,
                            p >= 0,
                    ;
                } else {
                    assert(x == 0) by (nonlinear_arith)
                        requires
                            x == value * unit,
                            value == 0,
                    ;
                    assert(x * p == 0) by (nonlinear_arith)
                        requires
                            x == 0,
                    ;
                }
            }
            return if none {
                0
            } else {
                u64::MAX
            };
        }
        let tail = zeros_of(gap as usize);
        push_all(&mut digits, &tail);
        proof {
            lemma_zeros(gap as nat);
            lemma_digits_value_concat(whole@ + fraction@, zeros(gap as nat));
            assert(digits@ =~= (whole@ + fraction@) + zeros(gap as nat));
            assert forall|k: int| 0 <= k < digits@.len() implies is_digit(#[trigger] digits@[k]) by {
                if k < count {
                    assert(digits@[k] == (whole@ + fraction@)[k]);
                    if k < whole@.len() {
                        assert(digits@[k] == whole@[k]);
                    } else {
                        assert(digits@[k] == fraction@[k - whole@.len()]);
                    }
                } else {
                    assert(digits@[k] == zeros(gap as nat)[k - count]);
                }
            }
            assert(digits@ + empty@ =~= digits@);
            assert(pow10(0) == 1);
            let v2 = digits_value(digits@) as int;
            let p = pow10(gap as nat) as int;
            let u = unit as int;
            let v = value as int;
            assert(v2 == v * p);
            assert((v2 * u) / 1 == (v * u) * p) by (nonlinear_arith)
                requires
                    v2 == v * p,
            ;
        }
        return scale(&digits, &empty, unit);
    }
    // The point stays among the digits or moves to the left of them.
    let left: u128 = if down {
        behind as u128 + power
    } else {
        behind as u128 - power
    };
    if left <= count as u128 {
        let at: usize = count - left as usize;
        let head = slice(&digits, 0, at);
        let rest = slice(&digits, at, count);
        proof {
            assert(left == places);
            assert(head@ + rest@ =~= whole@ + fraction@);
            assert forall|k: int| 0 <= k < head@.len() implies is_digit(#[trigger] head@[k]) by {
                assert(head@[k] == digits@[k]);
            }
            assert forall|k: int| 0 <= k < rest@.len() implies is_digit(#[trigger] rest@[k]) by {
                assert(rest@[k] == digits@[k + at]);
            }
        }
        return scale(&head, &rest, unit);
    }
    let lead: u128 = left - count as u128;
    if lead >= 10 {
        proof {
            assert(places >= count + 10);
            lemma_pow10_adds(count as nat, 10);
            lemma_pow10_grows((count + 10) as nat, places as nat);
            let x = product as int;
            let v = value as int;
            let u = unit as int;
            let pc = pow10(count as nat) as int;
            let pk = pow10(places as nat) as int;
            assert(x < pc * 10000000000) by (nonlinear_arith)
                requires
                    x == v * u,
                    0 <= v < pc,
                    1 <= u <= 1073741824,
            ;
            assert(x / pk == 0) by (nonlinear_arith)
                requires
                    0 <= x < pk,
            ;
        }
        return 0;
    }
    let mut padded = zeros_of(lead as usize);
    push_all(&mut padded, &digits);
    proof {
        assert(left == places);
        lemma_zeros(lead as nat);
        lemma_digits_value_concat(zeros(lead as nat), whole@ + fraction@);
        assert(padded@ =~= zeros(lead as nat) + (whole@ + fraction@));
        assert(empty@ + padded@ =~= padded@);
        assert forall|k: int| 0 <= k < padded@.len() implies is_digit(#[trigger] padded@[k]) by {
            if k < lead {
                assert(padded@[k] == zeros(lead as nat)[k]);
            } else {
                assert(padded@[k] == digits@[k - lead]);
            }
        }
        let pc = pow10(count as nat) as int;
        assert(0 * pc == 0) by (nonlinear_arith);
        assert(digits_value(padded@) == value);
    }
    scale(&empty, &padded, unit)
}

/// The digits of a power of ten and whether it points down: the text behind
/// an optional sign, where it is made of digits and of one at least.
fn power_digits(text: &Vec<char>) -> (r: Option<(bool, Vec<char>)>)
    ensures
        match r {
            Some((down, digits)) => all_digits(digits@) && signed_value(text@) == Some(
                if down {
                    -(digits_value(digits@) as int)
                } else {
                    digits_value(digits@) as int
                },
            ),
            None => signed_value(text@) is None,
        },
{
    let signed = text.len() > 0 && (text[0] == '-' || text[0] == '+');
    let down = signed && text[0] == '-';
    let body = if signed {
        slice(text, 1, text.len())
    } else {
        slice(text, 0, text.len())
    };
    assert(body@ =~= (if signed {
        text@.drop_first()
    } else {
        text@
    }));
    if body.len() == 0 || !are_digits(&body) {
        return None;
    }
    Some((down, body))
}

/// Parse Docker CLI size format (e.g., "1.5GB", "250MB", "1.2kB").
pub fn parse_docker_size(size_str: &str) -> (r: u64)
    ensures
        r == docker_size(size_str@),
{
    let raw = to_chars(size_str);
    let t = to_upper(&trim(&raw));
    let n = t.len();
    proof {
        reveal_strlit("GB");
        reveal_strlit("MB");
        reveal_strlit("KB");
        reveal_strlit("B");
    }
    let (number, unit): (Vec<char>, u64) = if finishes_with(&t, "GB") {
        (slice(&t, 0, n - 2), GB)
    } else if finishes_with(&t, "MB") {
        (slice(&t, 0, n - 2), MB)
    } else if finishes_with(&t, "KB") {
        (slice(&t, 0, n - 2), KB)
    } else if finishes_with(&t, "B") {
        (slice(&t, 0, n - 1), 1)
    } else {
        assert(t@.subrange(0, n as int) =~= t@);
        (slice(&t, 0, n), 1)
    };
    assert((number@, unit) == size_unit(raised(trimmed(size_str@))));
    match finite(&number, unit) {
        Some(bytes) => bytes,
        None => {
            if is_text(&number, "INF") || is_text(&number, "+INF") || is_text(&number, "INFINITY")
                || is_text(&number, "+INFINITY") {
                u64::MAX
            } else {
                0
            }
        },
    }
}

/// The bytes of a number written in digits, if it is one.
fn finite(number: &Vec<char>, unit: u64) -> (r: Option<u64>)
    requires
        1 <= unit <= GB,
    ensures
        r == finite_size(number@, unit),
{
    let pieces = split(number, 'E');
    assert(rows(pieces@).len() == pieces@.len());
    if pieces.len() > 2 {
        return None;
    }
    assert(rows(pieces@)[0] == pieces@[0]@);
    let ghost mut exponent: int = 0;
    let (mantissa, down, power): (&Vec<char>, bool, u128) = if pieces.len() == 2 {
        assert(rows(pieces@)[1] == pieces@[1]@);
        match power_digits(&pieces[1]) {
            Some((down, digits)) => {
                proof {
                    exponent = signed_value(pieces@[1]@)->0;
                }
                (&pieces[0], down, read_bounded(&digits))
            },
            None => {
                return None;
            },
        }
    } else {
        proof {
            crate::tokens::lemma_split_on_laws(number@, 'E');
        }
        (number, false, 0)
    };
    assert(exponent_parts(number@) == Some((mantissa@, exponent)));
    let signed = mantissa.len() > 0 && (mantissa[0] == '-' || mantissa[0] == '+');
    let negative = signed && mantissa[0] == '-';
    let body = if signed {
        slice(mantissa, 1, mantissa.len())
    } else {
        slice(mantissa, 0, mantissa.len())
    };
    assert(body@ =~= (if signed {
        mantissa@.drop_first()
    } else {
        mantissa@
    }));
    let parts = split(&body, '.');
    assert(rows(parts@).len() == parts@.len());
    assert(rows(parts@)[0] == parts@[0]@);
    if parts.len() > 2 {
        return None;
    }
    let empty: Vec<char> = Vec::new();
    assert(empty@ =~= Seq::<char>::empty());
    let whole = &parts[0];
    let fraction = if parts.len() == 2 {
        assert(rows(parts@)[1] == parts@[1]@);
        &parts[1]
    } else {
        &empty
    };
    if !are_digits(whole) || !are_digits(fraction) {
        return None;
    }
    if whole.len() == 0 && fraction.len() == 0 {
        return None;
    }
    if negative {
        return Some(0);
    }
    Some(shift_scale(whole, fraction, down, power, unit, Ghost(exponent)))
}

} // verus!
