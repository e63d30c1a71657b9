//! Reading a location as the weather lookup takes it: a ZIP code with an
//! optional country, or a city query.

use crate::text::{
    char_is_ascii_letter, char_is_digit, from_chars, is_ascii_letter, is_digit, push_all, push_str,
    to_chars, trim, trimmed,
    trimmed_all,
};
use crate::tokens::{join, join_with, push_row, rows, split, split_on};
use vstd::prelude::*;

verus! {

/// Five digits, or five digits, a hyphen and four digits.
pub open spec fn is_zip_core(core: Seq<char>) -> bool {
    ||| core.len() == 5 && forall|i: int| 0 <= i < 5 ==> is_digit(#[trigger] core[i])
    ||| core.len() == 10 && core[5] == '-' && forall|i: int|
        0 <= i < 10 && i != 5 ==> is_digit(#[trigger] core[i])
}

/// Whether a location text starts with a US ZIP code: the part before its
/// first comma is one.
pub open spec fn looks_like_zip_spec(s: Seq<char>) -> bool {
    is_zip_core(split_on(s, ',')[0])
}

pub fn looks_like_zip(s: &str) -> (r: bool)
    ensures
        r == looks_like_zip_spec(s@),
{
    let raw = to_chars(s);
    let parts = split(&raw, ',');
    let core = &parts[0];
    assert(rows(parts@)[0] == core@);
    if core.len() != 5 && core.len() != 10 {
        return false;
    }
    let mut i: usize = 0;
    while i < core.len()
        invariant
            i <= core.len(),
            core@ == split_on(s@, ',')[0],
            core.len() == 5 || core.len() == 10,
            forall|k: int| 0 <= k < i && !(core.len() == 10 && k == 5) ==> is_digit(#[trigger] core@[k]),
            core.len() == 10 && i > 5 ==> core@[5] == '-',
        decreases core.len() - i,
    {
        if core.len() == 10 && i == 5 {
            if core[i] != '-' {
                return false;
            }
        } else if !char_is_digit(core[i]) {
            assert(!is_digit(core@[i as int]));
            return false;
        }
        i += 1;
    }
    true
}

/// The ZIP code and the country of a `ZIP[,CC]` text: the first two parts
/// between commas, trimmed; the country is `US` where none is given.
pub open spec fn zip_and_cc(s: Seq<char>) -> (Seq<char>, Seq<char>) {
    let parts = split_on(s, ',');
    (
        trimmed(parts[0]),
        if parts.len() >= 2 {
            trimmed(parts[1])
        } else {
            "US"@
        },
    )
}

pub fn split_zip_and_cc(s: &str) -> (r: (String, String))
    ensures
        (r.0@, r.1@) == zip_and_cc(s@),
{
    let raw = to_chars(s);
    let parts = split(&raw, ',');
    assert(rows(parts@).len() == parts@.len());
    assert(rows(parts@)[0] == parts@[0]@);
    let zip = trim(&parts[0]);
    let cc = if parts.len() >= 2 {
        assert(rows(parts@)[1] == parts@[1]@);
        from_chars(&trim(&parts[1]))
    } else {
        "US".to_string()
    };
    (from_chars(&zip), cc)
}

/// A second part that reads as a US state: two ASCII letters.
pub open spec fn is_state_code(part: Seq<char>) -> bool {
    part.len() == 2 && is_ascii_letter(part[0]) && is_ascii_letter(part[1])
}

/// A city query in the form the geocoder takes: the parts between commas,
/// trimmed and joined by commas again; `City,ST` with a two-letter `ST`
/// gets `,US` appended.
pub open spec fn normalized_city_query(s: Seq<char>) -> Seq<char> {
    let parts = trimmed_all(split_on(s, ','));
    if parts.len() == 2 && is_state_code(parts[1]) {
        parts[0] + ","@ + parts[1] + ",US"@
    } else {
        join_with(parts, ","@)
    }
}

pub fn normalize_city_query(input: &str) -> (r: String)
    ensures
        r@ == normalized_city_query(input@),
{
    let raw = to_chars(input);
    let pieces = split(&raw, ',');
    let mut parts: Vec<Vec<char>> = Vec::new();
    let mut i: usize = 0;
    assert(rows(pieces@).len() == pieces@.len());
    while i < pieces.len()
        invariant
            i <= pieces.len(),
            parts@.len() == i,
            rows(parts@) =~= trimmed_all(rows(pieces@)).subrange(0, i as int),
        decreases pieces.len() - i,
    {
        let t = trim(&pieces[i]);
        assert(rows(pieces@)[i as int] == pieces@[i as int]@);
        push_row(&mut parts, t);
        i += 1;
    }
    assert(trimmed_all(rows(pieces@)).subrange(0, pieces@.len() as int) =~= trimmed_all(
        rows(pieces@),
    ));
    if parts.len() == 2 && parts[1].len() == 2 && char_is_ascii_letter(parts[1][0])
        && char_is_ascii_letter(parts[1][1]) {
        assert(rows(parts@)[0] == parts@[0]@);
        assert(rows(parts@)[1] == parts@[1]@);
        let mut out: Vec<char> = Vec::new();
        push_all(&mut out, &parts[0]);
        push_str(&mut out, ",");
        push_all(&mut out, &parts[1]);
        push_str(&mut out, ",US");
        assert(out@ =~= parts@[0]@ + ","@ + parts@[1]@ + ",US"@);
        from_chars(&out)
    } else {
        proof {
            if parts.len() == 2 {
                assert(rows(parts@)[1] == parts@[1]@);
            }
        }
        let out = join(&parts, ",");
        from_chars(&out)
    }
}

} // verus!
