//! Security utilities: comparing secrets without leaking where they differ.

use subtle::ConstantTimeEq;
use vstd::prelude::*;

use vstd::utf8::encode_utf8_decode_utf8;

verus! {

/// `ConstantTimeEq::ct_eq` of `subtle` on two byte slices, turned into a
/// `bool`: slices of different lengths are unequal, and slices of one length
/// are equal exactly when every pair of bytes is.
#[verifier::external_body]
fn ct_eq_bytes(a: &[u8], b: &[u8]) -> (r: bool)
    ensures
        r == (a@ == b@),
{
    a.ct_eq(b).into()
}

/// Perform constant-time comparison of two strings to prevent timing attacks.
///
/// The time taken depends on the lengths alone: where they differ, the
/// provided text is still compared, against zeros of its own length.
pub fn constant_time_compare(a: &str, b: &str) -> (r: bool)
    ensures
        r == (a@ == b@),
{
    let a_bytes = a.as_bytes();
    let b_bytes = b.as_bytes();
    proof {
        encode_utf8_decode_utf8(a@);
        encode_utf8_decode_utf8(b@);
    }
    if a_bytes.len() != b_bytes.len() {
        let dummy: Vec<u8> = vec![0u8; a_bytes.len()];
        let _ = ct_eq_bytes(a_bytes, dummy.as_slice());
        return false;
    }
    ct_eq_bytes(a_bytes, b_bytes)
}

/// Verify a webhook token with constant-time comparison. The request
/// identifier names the request in the caller's log and decides nothing.
pub fn verify_webhook_token(provided: &str, expected: &str, request_id: Option<&str>) -> (r: bool)
    ensures
        r == (provided@ == expected@),
{
    constant_time_compare(provided, expected)
}

} // verus!
