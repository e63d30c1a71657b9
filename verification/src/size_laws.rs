//! What writing a size and reading it back gives.

use crate::docker_size::{decimal_parts, docker_size, lemma_plain_size, scaled, size_unit};
use crate::numbers::{
    all_digits,
    capped,
    decimal,
    digit_char,
    digit_value,
    digits_value,
    lemma_decimal_reads_back,
    lemma_digits_value_concat,
    pow10,
};
use crate::sizes::{
    float_unit,
    format_bytes_spec,
    gib_hundredths,
    nearest_double,
    rounded_quotient,
    two_digits,
    GB,
    KB,
    MB,
};
use crate::text::{
    ascii_upper,
    ends_with,
    is_digit,
    is_space,
    raised,
    trim_end,
    trim_start,
    trimmed,
};
use crate::tokens::{lemma_split_on_pair, lemma_split_on_plain, split_on};
use vstd::prelude::*;

verus! {

/// The characters that a written size is made of: digits, the point, and
/// the letters of the units.
spec fn is_size_char(c: char) -> bool {
    is_digit(c) || c == '.' || c == 'G' || c == 'M' || c == 'K' || c == 'B'
}

/// A text of such characters is left alone by trimming and by raising its
/// case.
proof fn lemma_plain_text_is_kept(s: Seq<char>)
    requires
        s.len() > 0,
        forall|i: int| 0 <= i < s.len() ==> is_size_char(#[trigger] s[i]),
    ensures
        raised(trimmed(s)) == s,
{
    assert(is_size_char(s[0]));
    assert(is_size_char(s[s.len() - 1]));
    assert(!is_space(s[0]));
    assert(!is_space(s.last()));
    assert(trim_start(s) == s);
    assert(trim_end(s) == s);
    assert forall|i: int| 0 <= i < s.len() implies ascii_upper(#[trigger] s[i]) == s[i] by {
        assert(is_size_char(s[i]));
    }
    assert(raised(s) =~= s);
}

/// A numeral has no point in it, and is no signed number.
proof fn lemma_numeral_is_plain(q: nat)
    ensures
        !decimal(q).contains('.'),
        decimal(q).len() >= 1,
        is_digit(decimal(q)[0]),
        all_digits(decimal(q)),
        forall|i: int| 0 <= i < decimal(q).len() ==> is_size_char(#[trigger] decimal(q)[i]),
{
    lemma_decimal_reads_back(q);
    let d = decimal(q);
    assert(is_digit(d[0]));
    if d.contains('.') {
        let k = choose|k: int| 0 <= k < d.len() && d[k] == '.';
        assert(is_digit(d[k]));
    }
    assert forall|i: int| 0 <= i < d.len() implies is_size_char(#[trigger] d[i]) by {
        assert(is_digit(d[i]));
    }
}

/// What a numeral with a two-letter unit behind it denotes.
proof fn lemma_whole_units(q: nat, first: char, unit: u64)
    requires
        (first == 'K' && unit == KB) || (first == 'M' && unit == MB),
    ensures
        docker_size(decimal(q) + seq![first, 'B']) == capped(q * unit as nat),
{
    reveal_strlit("GB");
    reveal_strlit("MB");
    reveal_strlit("KB");
    reveal_strlit("B");
    lemma_numeral_is_plain(q);
    let d = decimal(q);
    let s = d + seq![first, 'B'];
    assert forall|i: int| 0 <= i < s.len() implies is_size_char(#[trigger] s[i]) by {
        if i < d.len() {
            assert(s[i] == d[i]);
        }
    }
    lemma_plain_text_is_kept(s);
    let n = s.len() as int;
    assert(s.subrange(n - 2, n) =~= seq![first, 'B']);
    assert(s.subrange(0, n - 2) =~= d);
    assert(s[n - 2] == first);
    assert(!ends_with(s, "GB"@)) by {
        if ends_with(s, "GB"@) {
            assert(s.subrange(n - 2, n)[0] == "GB"@[0]);
        }
    }
    if first == 'K' {
        assert(!ends_with(s, "MB"@)) by {
            if ends_with(s, "MB"@) {
                assert(s.subrange(n - 2, n)[0] == "MB"@[0]);
            }
        }
        assert("KB"@ =~= seq!['K', 'B']);
        assert(ends_with(s, "KB"@));
    } else {
        assert("MB"@ =~= seq!['M', 'B']);
        assert(ends_with(s, "MB"@));
    }
    assert(size_unit(s) == (d, unit));
    lemma_split_on_plain(d, '.');
    let parts = split_on(d, '.');
    assert(parts[0] == d);
    assert(all_digits(Seq::<char>::empty()));
    assert(decimal_parts(d) == Some((false, d, Seq::<char>::empty())));
    assert(d + Seq::<char>::empty() =~= d);
    assert(pow10(0) == 1);
    lemma_decimal_reads_back(q);
    assert(digits_value(d + Seq::<char>::empty()) == q);
    assert(Seq::<char>::empty().len() == 0);
    assert(scaled(d, Seq::<char>::empty(), unit) == (q * unit as nat) / 1);
    assert(scaled(d, Seq::<char>::empty(), unit) == q * unit as nat);
    assert(!d.contains('E')) by {
        if d.contains('E') {
            let k = choose|k: int| 0 <= k < d.len() && d[k] == 'E';
            assert(is_digit(d[k]));
        }
    }
    lemma_plain_size(d, unit);
}

/// What two digits denote.
proof fn lemma_two_digits(f: nat)
    requires
        f < 100,
    ensures
        all_digits(two_digits(f)),
        digits_value(two_digits(f)) == f,
        two_digits(f).len() == 2,
        !two_digits(f).contains('.'),
{
    let t = two_digits(f);
    assert(t[0] == digit_char(f / 10));
    assert(t[1] == digit_char(f % 10));
    assert(is_digit(t[0]) && is_digit(t[1]));
    let one = t.drop_last();
    assert(one =~= seq![digit_char(f / 10)]);
    assert(one.drop_last() =~= Seq::<char>::empty());
    assert(digits_value(one.drop_last()) == 0);
    assert(digits_value(one) == digit_value(one.last()));
    assert(digits_value(t) == digits_value(one) * 10 + digit_value(t.last()));
    if t.contains('.') {
        let k = choose|k: int| 0 <= k < t.len() && t[k] == '.';
        assert(is_digit(t[k]));
    }
}

/// What hundredths of a GiB, written with two decimals, denote.
proof fn lemma_gib_text(h: nat)
    ensures
        docker_size(decimal(h / 100) + seq!['.'] + two_digits(h % 100) + "GB"@) == capped(
            (h * GB as nat) / 100,
        ),
{
    reveal_strlit("GB");
    let w = h / 100;
    let f = h % 100;
    lemma_numeral_is_plain(w);
    lemma_two_digits(f);
    let d = decimal(w);
    let t = two_digits(f);
    let number = d + seq!['.'] + t;
    let s = number + "GB"@;
    assert("GB"@ =~= seq!['G', 'B']);
    assert forall|i: int| 0 <= i < s.len() implies is_size_char(#[trigger] s[i]) by {
        if i < d.len() {
            assert(s[i] == d[i]);
        } else if i == d.len() {
            assert(s[i] == '.');
        } else if i < number.len() {
            assert(s[i] == t[i - d.len() - 1]);
            assert(is_digit(t[i - d.len() - 1]));
        } else {
            assert(s[i] == "GB"@[i - number.len()]);
        }
    }
    lemma_plain_text_is_kept(s);
    let n = s.len() as int;
    assert(s.subrange(n - 2, n) =~= "GB"@);
    assert(s.subrange(0, n - 2) =~= number);
    assert(ends_with(s, "GB"@));
    assert(size_unit(s) == (number, GB));
    assert(number[0] == d[0]);
    lemma_split_on_pair(d, t, '.');
    assert(decimal_parts(number) == Some((false, d, t)));
    assert(!number.contains('E')) by {
        if number.contains('E') {
            let k = choose|k: int| 0 <= k < number.len() && number[k] == 'E';
            if k < d.len() {
                assert(number[k] == d[k]);
                assert(is_digit(d[k]));
            } else if k > d.len() {
                assert(number[k] == t[k - d.len() - 1]);
                assert(is_digit(t[k - d.len() - 1]));
            }
        }
    }
    lemma_plain_size(number, GB);
    lemma_digits_value_concat(d, t);
    lemma_decimal_reads_back(w);
    assert(pow10(2) == 100) by {
        assert(pow10(0) == 1);
        assert(pow10(1) == 10 * pow10(0));
        assert(pow10(2) == 10 * pow10(1));
    }
    assert(digits_value(d + t) == w * 100 + f);
    assert(w * 100 + f == h);
}

/// A rounded quotient, times the divisor, is within half the divisor of
/// the dividend.
proof fn lemma_rounded_quotient_is_near(x: nat, d: nat)
    requires
        d > 0,
    ensures
        2 * (rounded_quotient(x, d) * d) <= 2 * x + d,
        2 * x <= 2 * (rounded_quotient(x, d) * d) + d,
{
    let q = x / d;
    let r = x % d;
    assert(x == q * d + r && 0 <= r < d) by (nonlinear_arith)
        requires
            q == x / d,
            r == x % d,
            d > 0,
    ;
    assert((q + 1) * d == q * d + d) by (nonlinear_arith);
}

/// A size written by `format_bytes` and read back is the size again, to
/// within one unit of what was written: less than a KiB below 1 MiB, less
/// than a MiB below 1 GiB, and less than a hundredth of a GiB from there on.
pub proof fn lemma_size_round_trip(n: u64)
    requires
        n >= KB,
    ensures
        n < MB ==> docker_size(format_bytes_spec(n)) <= n < docker_size(format_bytes_spec(n))
            + KB,
        MB <= n < GB ==> docker_size(format_bytes_spec(n)) <= n < docker_size(
            format_bytes_spec(n),
        ) + MB,
        n >= GB ==> n - 10737419 < docker_size(format_bytes_spec(n)) < n + 10737419,
{
    reveal_strlit("GB");
    reveal_strlit("MB");
    reveal_strlit("KB");
    if n < MB {
        let q = (n / KB) as nat;
        lemma_whole_units(q, 'K', KB);
        assert("KB"@ =~= seq!['K', 'B']);
    } else if n < GB {
        let q = (n / MB) as nat;
        lemma_whole_units(q, 'M', MB);
        assert("MB"@ =~= seq!['M', 'B']);
    } else {
        let h = gib_hundredths(n as nat);
        lemma_gib_text(h);
        let u = float_unit(n as nat);
        let held = nearest_double(n as nat);
        lemma_rounded_quotient_is_near(n as nat, u);
        lemma_rounded_quotient_is_near(held * 100, GB as nat);
        let back = (h * GB as nat) / 100;
        assert(1 <= u <= 2048);
        assert(100 * back <= h * 1073741824 < 100 * back + 100) by (nonlinear_arith)
            requires
                back == (h * 1073741824) / 100,
        ;
    }
}

} // verus!
