//! Validation of payloads: a title or a name has at least two characters.
//! Nothing else is asked of a payload.

use crate::codec::MAX_VALUE_BYTES;
use crate::entity::{Error, ErrorKind, LicenseePayload, OwnerPayload, SongPayload};
use crate::ledger::{long_enough, MIN_NAME_CHARS};
use crate::registry::told;
use crate::text::{decimal_text, lemma_decimal_text_len, number_text};
use vstd::prelude::*;
use vstd::string::StringExecFns;
use vstd::utf8::encode_utf8;

verus! {

/// Calls `validator::validate_length` with a lower bound and no other: the
/// text has at least `min` characters. The crate counts the characters of a
/// `String`, not its bytes.
#[verifier::external_body]
pub(crate) fn has_min_length(text: &String, min: u64) -> (ok: bool)
    ensures
        ok == (text@.len() >= min),
{
    validator::validate_length(text, Some(min), None, None)
}

/// Whether a title or a name is long enough.
pub fn is_long_enough(name: &String) -> (ok: bool)
    ensures
        ok == long_enough(name@),
{
    has_min_length(name, MIN_NAME_CHARS)
}

/// The number of bytes of a text's UTF-8 form.
pub fn utf8_len(text: &String) -> (length: usize)
    ensures
        length == encode_utf8(text@).len(),
{
    text.as_str().as_bytes().len()
}

/// Whether fixed fields of `fixed` bytes and texts of `a`, `b` and `c` bytes
/// are together short enough for a table.
pub fn fits_table(fixed: usize, a: usize, b: usize, c: usize) -> (ok: bool)
    ensures
        ok == (fixed + a + b + c <= MAX_VALUE_BYTES),
{
    if fixed > MAX_VALUE_BYTES || a > MAX_VALUE_BYTES || b > MAX_VALUE_BYTES || c
        > MAX_VALUE_BYTES {
        false
    } else {
        fixed as u64 + a as u64 + b as u64 + c as u64 <= MAX_VALUE_BYTES as u64
    }
}

/// The error for a title or a name that is too short.
pub fn too_short(field: &str) -> (error: Error)
    ensures
        error@ == ErrorKind::InvalidPayload,
        error.message_text() == field@ + ": length must be at least "@ + decimal_text(
            MIN_NAME_CHARS as nat,
        ),
        error.has_message(),
{
    proof {
        lemma_decimal_text_len(MIN_NAME_CHARS as nat);
    }
    let digits = number_text(MIN_NAME_CHARS);
    let rule = String::from_str(field).concat(": length must be at least ");
    Error::InvalidPayload { msg: rule.concat(digits.as_str()) }
}

/// Whether a song can be created from a payload: its title is long enough.
pub fn check_song_payload(payload: &SongPayload) -> (result: Result<(), Error>)
    ensures
        result is Ok <==> long_enough(payload@.title),
        result is Err ==> result->Err_0@ == ErrorKind::InvalidPayload,
        told(result),
{
    if is_long_enough(&payload.title) {
        Ok(())
    } else {
        Err(too_short("title"))
    }
}

/// Whether an owner can be created from a payload: the name is long enough.
pub fn check_owner_payload(payload: &OwnerPayload) -> (result: Result<(), Error>)
    ensures
        result is Ok <==> long_enough(payload@.name),
        result is Err ==> result->Err_0@ == ErrorKind::InvalidPayload,
        told(result),
{
    if is_long_enough(&payload.name) {
        Ok(())
    } else {
        Err(too_short("name"))
    }
}

/// Whether a licensee can be created from a payload: the name is long
/// enough.
pub fn check_licensee_payload(payload: &LicenseePayload) -> (result: Result<(), Error>)
    ensures
        result is Ok <==> long_enough(payload@.name),
        result is Err ==> result->Err_0@ == ErrorKind::InvalidPayload,
        told(result),
{
    if is_long_enough(&payload.name) {
        Ok(())
    } else {
        Err(too_short("name"))
    }
}

} // verus!
