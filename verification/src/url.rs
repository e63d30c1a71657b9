//! Percent-encoding of query values, and its inverse.

use crate::text::{from_chars, slice, to_chars};
use crate::tokens::{rows, split, split_on};
use vstd::prelude::*;
use vstd::string::StringSliceAdditionalSpecFns;
use vstd::utf8::{
    decode_utf8, encode_utf8, encode_utf8_decode_utf8, encode_utf8_valid_utf8, is_ascii_chars,
    is_ascii_chars_encode_utf8, valid_utf8,
};

verus! {

/// The bytes that stand for themselves in a query value: ASCII letters and
/// digits, and `-`, `.`, `_`, `~`.
pub open spec fn is_unreserved(b: u8) -> bool {
    ||| 0x30 <= b <= 0x39
    ||| 0x41 <= b <= 0x5A
    ||| 0x61 <= b <= 0x7A
    ||| b == 0x2D
    ||| b == 0x2E
    ||| b == 0x5F
    ||| b == 0x7E
}

/// The upper-case hexadecimal digit of a number below 16.
pub open spec fn hex_digit_upper(n: u8) -> char
    recommends
        n < 16,
{
    if n < 10 {
        (48 + n) as char
    } else {
        (55 + n) as char
    }
}

/// One byte percent-encoded.
pub open spec fn encoded_byte(b: u8) -> Seq<char> {
    if is_unreserved(b) {
        seq![b as char]
    } else {
        seq!['%', hex_digit_upper(b / 16), hex_digit_upper(b % 16)]
    }
}

/// Bytes percent-encoded: every byte that is not unreserved becomes `%` and
/// its two upper-case hexadecimal digits.
pub open spec fn percent_encoded(bytes: Seq<u8>) -> Seq<char>
    decreases bytes.len(),
{
    if bytes.len() == 0 {
        Seq::<char>::empty()
    } else {
        encoded_byte(bytes[0]) + percent_encoded(bytes.drop_first())
    }
}

/// `urlencoding::encode`, as an owned string: the UTF-8 bytes of `s`
/// percent-encoded, every byte but ASCII letters, digits and `-`, `.`, `_`,
/// `~` written as `%` and two upper-case hexadecimal digits.
#[verifier::external_body]
pub(crate) fn url_encode(s: &str) -> (r: String)
    ensures
        r@ == percent_encoded(s.spec_bytes()),
{
    urlencoding::encode(s).into_owned()
}

/// `String::from_utf8` of std: the string that the bytes encode, or `None`
/// where they are not valid UTF-8.
#[verifier::external_body]
pub(crate) fn string_from_utf8(bytes: Vec<u8>) -> (r: Option<String>)
    ensures
        match r {
            Some(s) => valid_utf8(bytes@) && s@ == decode_utf8(bytes@),
            None => !valid_utf8(bytes@),
        },
{
    String::from_utf8(bytes).ok()
}

/// A query value percent-encoded for use in a URL.
pub fn encode_query_value(s: &str) -> (r: String)
    ensures
        r@ == percent_encoded(encode_utf8(s@)),
{
    url_encode(s)
}

/// The value of a hexadecimal digit, in either case.
pub open spec fn hex_value(b: u8) -> Option<u8> {
    if 0x30 <= b <= 0x39 {
        Some((b - 0x30) as u8)
    } else if 0x41 <= b <= 0x46 {
        Some((b - 0x41 + 10) as u8)
    } else if 0x61 <= b <= 0x66 {
        Some((b - 0x61 + 10) as u8)
    } else {
        None
    }
}

fn hex_value_of(b: u8) -> (r: Option<u8>)
    ensures
        r == hex_value(b),
        r matches Some(v) ==> v < 16,
{
    if 0x30 <= b && b <= 0x39 {
        Some(b - 0x30)
    } else if 0x41 <= b && b <= 0x46 {
        Some(b - 0x41 + 10)
    } else if 0x61 <= b && b <= 0x66 {
        Some(b - 0x61 + 10)
    } else {
        None
    }
}

/// Whether an escape `%XX` with two hexadecimal digits starts at `i`.
pub open spec fn escape_at(bytes: Seq<u8>, i: int) -> bool {
    &&& 0 <= i
    &&& i + 2 < bytes.len()
    &&& bytes[i] == 0x25
    &&& hex_value(bytes[i + 1]) is Some
    &&& hex_value(bytes[i + 2]) is Some
}

/// The bytes that a query value stands for: `%XX` is the byte with that
/// hexadecimal value, `+` is a space, and every other byte is itself, a `%`
/// that starts no escape too.
pub open spec fn percent_decoded(bytes: Seq<u8>) -> Seq<u8>
    decreases bytes.len(),
{
    if bytes.len() == 0 {
        Seq::<u8>::empty()
    } else if escape_at(bytes, 0) {
        seq![(hex_value(bytes[1])->0 * 16 + hex_value(bytes[2])->0) as u8] + percent_decoded(
            bytes.subrange(3, bytes.len() as int),
        )
    } else if bytes[0] == 0x2B {
        seq![0x20u8] + percent_decoded(bytes.drop_first())
    } else {
        seq![bytes[0]] + percent_decoded(bytes.drop_first())
    }
}

/// The text that a query value stands for, or `None` where the decoded
/// bytes are not valid UTF-8.
pub open spec fn query_value(text: Seq<char>) -> Option<Seq<char>> {
    let bytes = percent_decoded(encode_utf8(text));
    if valid_utf8(bytes) {
        Some(decode_utf8(bytes))
    } else {
        None
    }
}

/// Decodes a query value as it arrives in a request.
pub fn decode_query_value(s: &str) -> (r: Option<String>)
    ensures
        match r {
            Some(t) => query_value(s@) == Some(t@),
            None => query_value(s@) is None,
        },
{
    let input = s.as_bytes();
    let n = input.len();
    let mut out: Vec<u8> = Vec::new();
    let mut i: usize = 0;
    assert(input@.subrange(0, n as int) =~= input@);
    while i < n
        invariant
            i <= n,
            n == input@.len(),
            percent_decoded(input@) == out@ + percent_decoded(input@.subrange(i as int, n as int)),
        decreases n - i,
    {
        let ghost rest = input@.subrange(i as int, n as int);
        let b = input[i];
        assert(rest[0] == b);
        let mut step: usize = 1;
        let mut value: u8 = b;
        if b == 0x25 && n - i > 2 {
            assert(rest[1] == input@[i + 1]);
            assert(rest[2] == input@[i + 2]);
            match hex_value_of(input[i + 1]) {
                Some(hi) => {
                    match hex_value_of(input[i + 2]) {
                        Some(lo) => {
                            step = 3;
                            value = hi * 16 + lo;
                        },
                        None => {},
                    }
                },
                None => {},
            }
        } else if b == 0x2B {
            value = 0x20;
        }
        proof {
            if step == 3 {
                assert(escape_at(rest, 0));
                assert(rest.subrange(3, rest.len() as int) =~= input@.subrange(i + 3, n as int));
            } else {
                assert(!escape_at(rest, 0));
                assert(rest.drop_first() =~= input@.subrange(i + 1, n as int));
            }
            assert(out@.push(value) + percent_decoded(input@.subrange(i + step, n as int)) =~= out@
                + percent_decoded(rest));
        }
        out.push(value);
        i += step;
    }
    assert(out@ + Seq::<u8>::empty() =~= out@);
    string_from_utf8(out)
}

// ---------------------------------------------------------------------------
// Query strings
// ---------------------------------------------------------------------------

/// The name and the value of a pair of a query string, as written: what
/// stands before and after its first `=`; a pair without `=` has an empty
/// value.
pub open spec fn pair_parts(pair: Seq<char>) -> (Seq<char>, Seq<char>) {
    let name = split_on(pair, '=')[0];
    if name.len() == pair.len() {
        (pair, Seq::<char>::empty())
    } else {
        (name, pair.subrange(name.len() as int + 1, pair.len() as int))
    }
}

/// Whether a pair gives the parameter: its name, decoded, is the
/// parameter's name.
pub open spec fn pair_names(pair: Seq<char>, name: Seq<char>) -> bool {
    query_value(pair_parts(pair).0) == Some(name)
}

/// The value of a parameter of a query string, decoded: that of the first
/// pair, between `&`, whose name is the parameter's. None where no pair gives
/// the parameter, and where the value of the first that does is no text.
pub open spec fn parameter_spec(query: Seq<char>, name: Seq<char>) -> Option<Seq<char>> {
    first_value(split_on(query, '&'), 0, name)
}

/// The decoded value of the first pair from the `i`th on that gives the
/// parameter.
pub open spec fn first_value(pairs: Seq<Seq<char>>, i: nat, name: Seq<char>) -> Option<Seq<char>>
    decreases pairs.len() - i,
{
    if i >= pairs.len() {
        None
    } else if pair_names(pairs[i as int], name) {
        query_value(pair_parts(pairs[i as int]).1)
    } else {
        first_value(pairs, i + 1, name)
    }
}

/// The value of a parameter of a query string.
pub fn query_parameter(query: &str, name: &str) -> (r: Option<String>)
    ensures
        match r {
            Some(v) => parameter_spec(query@, name@) == Some(v@),
            None => parameter_spec(query@, name@) is None,
        },
{
    let raw = to_chars(query);
    let pairs = split(&raw, '&');
    let mut i: usize = 0;
    assert(rows(pairs@).len() == pairs@.len());
    while i < pairs.len()
        invariant
            i <= pairs.len(),
            rows(pairs@) == split_on(query@, '&'),
            first_value(rows(pairs@), 0, name@) == first_value(rows(pairs@), i as nat, name@),
        decreases pairs.len() - i,
    {
        let pair = &pairs[i];
        assert(rows(pairs@)[i as int] == pair@);
        let parts = split(pair, '=');
        let head = &parts[0];
        assert(rows(parts@)[0] == head@);
        proof {
            crate::packages::lemma_first_piece_is_prefix(pair@, '=');
        }
        let (written_name, written_value): (Vec<char>, Vec<char>) = if head.len() == pair.len() {
            let whole = slice(pair, 0, pair.len());
            assert(whole@ =~= pair@);
            (whole, Vec::new())
        } else {
            (slice(head, 0, head.len()), slice(pair, head.len() + 1, pair.len()))
        };
        assert(written_name@ =~= pair_parts(pair@).0);
        assert(written_value@ =~= pair_parts(pair@).1);
        let key = decode_query_value(from_chars(&written_name).as_str());
        let matches = match &key {
            Some(k) => crate::text::str_same(k.as_str(), name),
            None => false,
        };
        if matches {
            return decode_query_value(from_chars(&written_value).as_str());
        }
        i += 1;
    }
    None
}

// ---------------------------------------------------------------------------
// The round trip
// ---------------------------------------------------------------------------

/// The characters of an encoded value as bytes.
pub open spec fn ascii_bytes(text: Seq<char>) -> Seq<u8> {
    Seq::new(text.len(), |i: int| text[i] as u8)
}

proof fn lemma_hex_digit(n: u8)
    requires
        n < 16,
    ensures
        hex_value(hex_digit_upper(n) as u8) == Some(n),
        (hex_digit_upper(n) as u32) < 128,
{
}

proof fn lemma_encoded_is_ascii(bytes: Seq<u8>)
    ensures
        is_ascii_chars(percent_encoded(bytes)),
    decreases bytes.len(),
{
    if bytes.len() > 0 {
        lemma_encoded_is_ascii(bytes.drop_first());
        let head = encoded_byte(bytes[0]);
        let tail = percent_encoded(bytes.drop_first());
        lemma_hex_digit(bytes[0] / 16);
        lemma_hex_digit(bytes[0] % 16);
        assert forall|i: int| 0 <= i < (head + tail).len() implies (#[trigger] (head + tail)[i]
            as u32) < 128 by {
            if i < head.len() {
                assert((head + tail)[i] == head[i]);
            } else {
                assert((head + tail)[i] == tail[i - head.len()]);
            }
        }
    }
}

/// Decoding undoes encoding, byte for byte.
pub proof fn lemma_decode_encode_bytes(bytes: Seq<u8>)
    ensures
        percent_decoded(ascii_bytes(percent_encoded(bytes))) == bytes,
    decreases bytes.len(),
{
    if bytes.len() == 0 {
        assert(ascii_bytes(percent_encoded(bytes)) =~= Seq::<u8>::empty());
        assert(percent_decoded(Seq::<u8>::empty()) =~= bytes);
    } else {
        let b = bytes[0];
        let rest = bytes.drop_first();
        lemma_decode_encode_bytes(rest);
        let head = encoded_byte(b);
        let tail = percent_encoded(rest);
        let all = ascii_bytes(head + tail);
        lemma_hex_digit(b / 16);
        lemma_hex_digit(b % 16);
        if is_unreserved(b) {
            assert(all[0] == b);
            assert(all.drop_first() =~= ascii_bytes(tail));
            assert(!escape_at(all, 0));
            assert(seq![b] + rest =~= bytes);
        } else {
            assert(all[0] == 0x25);
            assert(all[1] == hex_digit_upper(b / 16) as u8);
            assert(all[2] == hex_digit_upper(b % 16) as u8);
            assert(escape_at(all, 0));
            assert(all.subrange(3, all.len() as int) =~= ascii_bytes(tail));
            assert((b / 16) * 16 + b % 16 == b);
            assert(seq![b] + rest =~= bytes);
        }
    }
}

/// A value that was percent-encoded decodes to itself: what a button's URL
/// carries is what the request handler sees.
pub proof fn lemma_query_value_round_trip(s: Seq<char>)
    ensures
        query_value(percent_encoded(encode_utf8(s))) == Some(s),
{
    let bytes = encode_utf8(s);
    let text = percent_encoded(bytes);
    lemma_encoded_is_ascii(bytes);
    is_ascii_chars_encode_utf8(text);
    assert(encode_utf8(text) =~= ascii_bytes(text));
    lemma_decode_encode_bytes(bytes);
    encode_utf8_valid_utf8(s);
    encode_utf8_decode_utf8(s);
}

} // verus!
