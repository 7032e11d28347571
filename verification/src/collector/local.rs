//! Report files that were read from a local directory.

use vstd::prelude::*;
use vstd::utf8::{decode_utf8, valid_utf8};
use std::str::Utf8Error;
use crate::collector::fetch::BridgeRawFile;
use crate::error::BridgeError;

verus! {

/// Why bytes are no UTF-8 text.
#[verifier::external_type_specification]
#[verifier::external_body]
pub struct ExUtf8Error(Utf8Error);

/// `std::str::from_utf8`: the bytes as text where they are valid UTF-8, an
/// error where they are not.
#[verifier::external_body]
pub(crate) fn text_of_bytes(bytes: &[u8]) -> (outcome: Result<&str, Utf8Error>)
    ensures
        match outcome {
            Ok(text) => valid_utf8(bytes@) && text@ == decode_utf8(bytes@),
            Err(_) => !valid_utf8(bytes@),
        },
{
    std::str::from_utf8(bytes)
}

/// The description that the standard library gives of bytes that are no
/// UTF-8 text.
#[verifier::external_body]
pub(crate) fn describe_utf8_error(failure: &Utf8Error) -> (text: String) {
    failure.to_string()
}

/// The raw file of a report that was read from a local directory: it has
/// no path, and its text is what its bytes decode to. Bytes that are no
/// UTF-8 text are a parse error.
pub fn raw_file_from_bytes(bytes: Vec<u8>, timestamp: i64) -> (outcome: Result<
    BridgeRawFile,
    BridgeError,
>)
    ensures
        match outcome {
            Ok(file) => valid_utf8(bytes@) && file.path@ == Seq::<char>::empty() && file.content@
                == decode_utf8(bytes@) && file.raw == bytes && file.timestamp == timestamp,
            Err(e) => !valid_utf8(bytes@) && e is Parse,
        },
{
    let content = match text_of_bytes(bytes.as_slice()) {
        Ok(text) => text.to_owned(),
        Err(failure) => {
            return Err(BridgeError::Parse(describe_utf8_error(&failure)));
        },
    };
    Ok(BridgeRawFile { path: String::new(), content, raw: bytes, timestamp })
}

} // verus!
