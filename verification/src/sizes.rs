//! Byte counts as text: writing sizes the way reports show them, and reading
//! the size strings of thresholds.

use crate::numbers::{decimal, digit_char, parse_u64, push_decimal, unsigned_value};
use crate::text::{ends_with, finishes_with, from_chars, push_str, raised, slice, to_chars, to_upper, trim, trimmed};
use vstd::prelude::*;

verus! {

pub const KB: u64 = 1024;

pub const MB: u64 = 1048576;

pub const GB: u64 = 1073741824;

/// The quotient `n / d` rounded to the nearest integer, ties to the even one.
pub open spec fn rounded_quotient(n: nat, d: nat) -> nat
    recommends
        d > 0,
{
    let q = n / d;
    let r = n % d;
    if 2 * r < d || (2 * r == d && q % 2 == 0) {
        q
    } else {
        q + 1
    }
}

/// The spacing of binary64 numbers around `n`: 1 below 2^53, doubling with
/// each further power of two.
pub open spec fn float_unit(n: nat) -> nat {
    if n < 0x20000000000000 {
        1
    } else if n < 0x40000000000000 {
        2
    } else if n < 0x80000000000000 {
        4
    } else if n < 0x100000000000000 {
        8
    } else if n < 0x200000000000000 {
        16
    } else if n < 0x400000000000000 {
        32
    } else if n < 0x800000000000000 {
        64
    } else if n < 0x1000000000000000 {
        128
    } else if n < 0x2000000000000000 {
        256
    } else if n < 0x4000000000000000 {
        512
    } else if n < 0x8000000000000000 {
        1024
    } else {
        2048
    }
}

/// The binary64 number nearest to `n`, ties to even: the count as it stands
/// once it is held in a double.
pub open spec fn nearest_double(n: nat) -> nat {
    rounded_quotient(n, float_unit(n)) * float_unit(n)
}

/// Hundredths of a GiB in `bytes`, rounded half to even from the nearest
/// double.
pub open spec fn gib_hundredths(bytes: nat) -> nat {
    rounded_quotient(nearest_double(bytes) * 100, GB as nat)
}

/// A number below 100 as two digits.
pub open spec fn two_digits(n: nat) -> Seq<char>
    recommends
        n < 100,
{
    seq![digit_char(n / 10), digit_char(n % 10)]
}

/// A size as reports show it: GiB with two decimals from 1 GiB on, else whole
/// MiB, whole KiB, or bytes, each rounded down.
pub open spec fn format_bytes_spec(bytes: u64) -> Seq<char> {
    if bytes >= GB {
        let h = gib_hundredths(bytes as nat);
        decimal(h / 100) + seq!['.'] + two_digits(h % 100) + "GB"@
    } else if bytes >= MB {
        decimal((bytes / MB) as nat) + "MB"@
    } else if bytes >= KB {
        decimal((bytes / KB) as nat) + "KB"@
    } else {
        decimal(bytes as nat) + "B"@
    }
}

fn float_unit_of(n: u64) -> (u: u64)
    ensures
        u == float_unit(n as nat),
        1 <= u <= 2048,
{
    if n < 0x20000000000000 {
        1
    } else if n < 0x40000000000000 {
        2
    } else if n < 0x80000000000000 {
        4
    } else if n < 0x100000000000000 {
        8
    } else if n < 0x200000000000000 {
        16
    } else if n < 0x400000000000000 {
        32
    } else if n < 0x800000000000000 {
        64
    } else if n < 0x1000000000000000 {
        128
    } else if n < 0x2000000000000000 {
        256
    } else if n < 0x4000000000000000 {
        512
    } else if n < 0x8000000000000000 {
        1024
    } else {
        2048
    }
}

fn round_div(n: u128, d: u128) -> (r: u128)
    requires
        0 < d <= 0x4000_0000,
        n < 0x1_0000_0000_0000_0000_0000,
    ensures
        r == rounded_quotient(n as nat, d as nat),
        r <= n / d + 1,
{
    let q = n / d;
    let m = n % d;
    if 2 * m < d || (2 * m == d && q % 2 == 0) {
        q
    } else {
        q + 1
    }
}

/// Appends `bytes` in the form of [`format_bytes_spec`] to `out`.
pub fn push_bytes(out: &mut Vec<char>, bytes: u64)
    ensures
        final(out)@ == old(out)@ + format_bytes_spec(bytes),
{
    let ghost start = out@;
    if bytes >= GB {
        let unit: u64 = float_unit_of(bytes);
        let steps: u128 = round_div(bytes as u128, unit as u128);
        assert(steps * (unit as u128) <= bytes + unit) by (nonlinear_arith)
            requires
                steps <= bytes as u128 / (unit as u128) + 1,
                unit >= 1,
        ;
        let held: u128 = steps * (unit as u128);
        let h: u128 = round_div(held * 100, GB as u128);
        let whole: u64 = (h / 100) as u64;
        let frac: u8 = (h % 100) as u8;
        let mut piece: Vec<char> = Vec::new();
        push_decimal(&mut piece, whole);
        piece.push('.');
        piece.push((48 + frac / 10) as char);
        piece.push((48 + frac % 10) as char);
        push_str(&mut piece, "GB");
        assert(piece@ =~= format_bytes_spec(bytes));
        crate::text::push_all(out, &piece);
    } else if bytes >= MB {
        let mut piece: Vec<char> = Vec::new();
        push_decimal(&mut piece, bytes / MB);
        push_str(&mut piece, "MB");
        assert(piece@ =~= format_bytes_spec(bytes));
        crate::text::push_all(out, &piece);
    } else if bytes >= KB {
        let mut piece: Vec<char> = Vec::new();
        push_decimal(&mut piece, bytes / KB);
        push_str(&mut piece, "KB");
        assert(piece@ =~= format_bytes_spec(bytes));
        crate::text::push_all(out, &piece);
    } else {
        let mut piece: Vec<char> = Vec::new();
        push_decimal(&mut piece, bytes);
        push_str(&mut piece, "B");
        assert(piece@ =~= format_bytes_spec(bytes));
        crate::text::push_all(out, &piece);
    }
}

/// Format bytes as human-readable size.
pub fn format_bytes(bytes: u64) -> (r: String)
    ensures
        r@ == format_bytes_spec(bytes),
{
    let mut out: Vec<char> = Vec::new();
    push_bytes(&mut out, bytes);
    assert(out@ =~= format_bytes_spec(bytes));
    from_chars(&out)
}

/// Why a size threshold could not be read.
#[derive(Debug, Clone, Copy, PartialEq, Eq, Structural)]
pub enum SizeError {
    /// The number part is not an unsigned decimal numeral.
    InvalidNumber,
    /// The number, or the number times its unit, does not fit in 64 bits.
    TooLarge,
}

/// The unit that a threshold's last letter names and the text before it.
pub open spec fn threshold_parts(s: Seq<char>) -> (Seq<char>, nat) {
    let t = raised(trimmed(s));
    if ends_with(t, "G"@) {
        (t.subrange(0, t.len() - 1), GB as nat)
    } else if ends_with(t, "M"@) {
        (t.subrange(0, t.len() - 1), MB as nat)
    } else if ends_with(t, "K"@) {
        (t.subrange(0, t.len() - 1), KB as nat)
    } else {
        (t, 1)
    }
}

/// What a threshold such as `100M`, `1G`, `500K` or `100` denotes in bytes,
/// whatever the case of the letter; `None` when the number part is no
/// unsigned numeral.
pub open spec fn threshold_value(s: Seq<char>) -> Option<nat> {
    let (number, unit) = threshold_parts(s);
    match unsigned_value(number) {
        Some(n) => Some(n * unit),
        None => None,
    }
}

/// Parse size string like "100M", "1G", "500K" to bytes.
pub fn parse_size_threshold(s: &str) -> (r: Result<u64, SizeError>)
    ensures
        match r {
            Ok(n) => threshold_value(s@) == Some(n as nat),
            Err(SizeError::InvalidNumber) => threshold_value(s@) is None,
            Err(SizeError::TooLarge) => threshold_value(s@) is Some && threshold_value(s@)->0
                > u64::MAX,
        },
{
    let raw = to_chars(s);
    let t0 = trim(&raw);
    let t = to_upper(&t0);
    proof {
        reveal_strlit("G");
        reveal_strlit("M");
        reveal_strlit("K");
    }
    let n = t.len();
    let (number, unit): (Vec<char>, u64) = if finishes_with(&t, "G") {
        (slice(&t, 0, n - 1), GB)
    } else if finishes_with(&t, "M") {
        (slice(&t, 0, n - 1), MB)
    } else if finishes_with(&t, "K") {
        (slice(&t, 0, n - 1), KB)
    } else {
        assert(t@.subrange(0, n as int) =~= t@);
        (slice(&t, 0, n), 1)
    };
    assert(number@ == threshold_parts(s@).0);
    assert(unit == threshold_parts(s@).1);
    match unsigned_value_of(&number) {
        NumberRead::Value(v) => {
            if v > u64::MAX / unit {
                assert(v * unit > u64::MAX) by (nonlinear_arith)
                    requires
                        v > u64::MAX / unit,
                        unit > 0,
                ;
                Err(SizeError::TooLarge)
            } else {
                assert(v * unit <= u64::MAX) by (nonlinear_arith)
                    requires
                        v <= u64::MAX / unit,
                        unit > 0,
                ;
                Ok(v * unit)
            }
        },
        NumberRead::TooLarge => {
            assert(unsigned_value(number@)->0 * unit > u64::MAX) by (nonlinear_arith)
                requires
                    unsigned_value(number@)->0 > u64::MAX,
                    unit >= 1,
            ;
            Err(SizeError::TooLarge)
        },
        NumberRead::Invalid => Err(SizeError::InvalidNumber),
    }
}

/// The outcome of reading an unsigned numeral into 64 bits.
enum NumberRead {
    Value(u64),
    TooLarge,
    Invalid,
}

fn unsigned_value_of(v: &Vec<char>) -> (r: NumberRead)
    ensures
        match r {
            NumberRead::Value(n) => unsigned_value(v@) == Some(n as nat),
            NumberRead::TooLarge => unsigned_value(v@) is Some && unsigned_value(v@)->0 > u64::MAX,
            NumberRead::Invalid => unsigned_value(v@) is None,
        },
{
    match parse_u64(v) {
        Some(n) => NumberRead::Value(n),
        None => {
            if is_unsigned_numeral(v) {
                NumberRead::TooLarge
            } else {
                NumberRead::Invalid
            }
        },
    }
}

fn is_unsigned_numeral(v: &Vec<char>) -> (r: bool)
    ensures
        r == unsigned_value(v@) is Some,
{
    let from: usize = if v.len() > 0 && v[0] == '+' {
        1
    } else {
        0
    };
    if from == v.len() {
        return false;
    }
    let ghost body = v@.subrange(from as int, v.len() as int);
    assert(v@.subrange(0, v.len() as int) =~= v@);
    assert(v@.subrange(1, v.len() as int) =~= v@.drop_first());
    let mut i: usize = from;
    while i < v.len()
        invariant
            from <= i <= v.len(),
            from < v.len(),
            body == v@.subrange(from as int, v.len() as int),
            body == (if v@.len() > 0 && v@[0] == '+' {
                v@.drop_first()
            } else {
                v@
            }),
            forall|k: int| 0 <= k < i - from ==> crate::text::is_digit(#[trigger] body[k]),
        decreases v.len() - i,
    {
        if !crate::text::char_is_digit(v[i]) {
            assert(!crate::text::is_digit(body[i - from]));
            return false;
        }
        i += 1;
    }
    true
}

} // verus!
