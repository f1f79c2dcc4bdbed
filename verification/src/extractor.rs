//! A reference as it comes in the path of a request: percent-encoded.

use crate::error::Error;
use crate::models::{reference_spec, OciIdentifier, OciIdentifierView};
use crate::text::opt_text;
use vstd::prelude::*;
use vstd::utf8::{decode_utf8, encode_utf8, valid_utf8};

verus! {

/// A reference that was read from the path of a request.
pub struct OciId(pub OciIdentifier);

/// The value of a byte as a hexadecimal digit, in either case.
pub open spec fn hex_digit_of(b: u8) -> Option<u8> {
    if 0x30 <= b <= 0x39 {
        Some((b - 0x30) as u8)
    } else if 0x41 <= b <= 0x46 {
        Some((b - 0x41 + 10) as u8)
    } else if 0x61 <= b <= 0x66 {
        Some((b - 0x61 + 10) as u8)
    } else {
        None
    }
}

/// Whether an escape stands at the start of the bytes: a percent sign and
/// two hexadecimal digits.
pub open spec fn escape_at_start(b: Seq<u8>) -> bool {
    b.len() >= 3 && b[0] == 0x25 && hex_digit_of(b[1]) is Some && hex_digit_of(b[2]) is Some
}

/// The bytes with every escape replaced by the byte that it stands for.
/// Escapes are read from left to right. A percent sign that starts no
/// escape stays as it is.
pub open spec fn percent_decoded(b: Seq<u8>) -> Seq<u8>
    decreases b.len(),
{
    if b.len() == 0 {
        b
    } else if escape_at_start(b) {
        seq![(hex_digit_of(b[1])->Some_0 * 16 + hex_digit_of(b[2])->Some_0) as u8]
            + percent_decoded(b.skip(3))
    } else {
        seq![b[0]] + percent_decoded(b.skip(1))
    }
}

/// The text that a percent-encoded text stands for, if the decoded bytes
/// are UTF-8.
pub open spec fn decoded_text(s: Seq<char>) -> Option<Seq<char>> {
    let bytes = percent_decoded(encode_utf8(s));
    if valid_utf8(bytes) {
        Some(decode_utf8(bytes))
    } else {
        None
    }
}

/// Calls `urlencoding::decode`. That function replaces, in the bytes of
/// the text and from left to right, each percent sign that two hexadecimal
/// digits follow by the byte that the digits give, and keeps every other
/// byte; it fails where the bytes that come out are not UTF-8. The contract
/// claims this, with `None` for the failure.
#[verifier::external_body]
fn outside_decode(data: &str) -> (r: Option<String>)
    ensures
        opt_text(r) == decoded_text(data@),
{
    match urlencoding::decode(data) {
        Ok(text) => Some(text.into_owned()),
        Err(_) => None,
    }
}

/// What reading a decoded path gives.
pub open spec fn decoded_reference(decoded: Option<Seq<char>>) -> Result<
    OciIdentifierView,
    Error,
> {
    match decoded {
        None => Err(Error::UTF8),
        Some(text) => match reference_spec(text) {
            Ok(id) => Ok(id),
            Err(e) => Err(Error::Oci(e)),
        },
    }
}

/// What a path gives: the reference that its decoded text holds.
pub open spec fn path_reference(path: Seq<char>) -> Result<OciIdentifierView, Error> {
    decoded_reference(decoded_text(path))
}

/// The reference of a result, as what it stands for.
pub open spec fn id_result_view(r: Result<OciId, Error>) -> Result<OciIdentifierView, Error> {
    match r {
        Ok(id) => Ok(id.0@),
        Err(e) => Err(e),
    }
}

impl OciId {
    /// Reads the reference from a path that was decoded before. A path
    /// whose decoding failed gives `UTF8`, a text that is no reference the
    /// error of the reference.
    pub fn from_decoded(decoded: Option<String>) -> (r: Result<OciId, Error>)
        ensures
            id_result_view(r) == decoded_reference(opt_text(decoded)),
    {
        match decoded {
            None => Err(Error::UTF8),
            Some(text) => match OciIdentifier::from_str(text.as_str()) {
                Ok(id) => Ok(OciId(id)),
                Err(e) => Err(Error::Oci(e)),
            },
        }
    }

    /// Reads the reference from the path of a request: decodes the percent
    /// escapes, then reads the text.
    pub fn from_path(path: &str) -> (r: Result<OciId, Error>)
        ensures
            id_result_view(r) == path_reference(path@),
    {
        OciId::from_decoded(outside_decode(path))
    }
}

} // verus!
