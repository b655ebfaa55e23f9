use vstd::prelude::*;

use crate::error::AppError;

verus! {

/// Relies on `String::from_utf8`: returns the string decoding the bytes
/// exactly when they are valid UTF-8, and fails otherwise.
#[verifier::external_body]
pub fn string_from_utf8(v: Vec<u8>) -> (r: Result<String, AppError>)
    ensures
        match r {
            Ok(s) => vstd::utf8::valid_utf8(v@) && s@ == vstd::utf8::decode_utf8(v@),
            Err(e) => !vstd::utf8::valid_utf8(v@) && e == AppError::FromUtf8,
        },
{
    String::from_utf8(v).map_err(|_| AppError::FromUtf8)
}

/// Relies on `str`'s `PartialEq`: two string slices compare equal exactly
/// when they consist of the same characters.
#[verifier::external_body]
pub fn str_eq(a: &str, b: &str) -> (r: bool)
    ensures
        r == (a@ == b@),
{
    a == b
}

} // verus!
