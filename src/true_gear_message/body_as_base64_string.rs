//! The body of a request travels as the standard base64 text (with padding)
//! of its JSON bytes.
use base64::engine::general_purpose::STANDARD;
use base64::Engine;
use vstd::prelude::*;

verus! {

/// The standard base64 text of `b`.
pub uninterp spec fn base64_of(b: Seq<u8>) -> Seq<char>;

/// The bytes that the standard base64 text `s` decodes to, when it is valid.
pub uninterp spec fn base64_decoded(s: Seq<char>) -> Option<Seq<u8>>;

#[verifier::external_type_specification]
#[verifier::external_body]
pub struct ExDecodeError(base64::DecodeError);

/// Relies on `Engine::encode` of base64's `STANDARD` engine: the padded text
/// of the bytes, which that engine's `decode` turns back into the same bytes.
/// It panics only when the text's length overflows `usize`.
#[verifier::external_body]
fn encode_standard(b: &[u8]) -> (r: String)
    requires
        b@.len() <= usize::MAX / 2,
    ensures
        r@ == base64_of(b@),
        base64_decoded(r@) == Some(b@),
{
    STANDARD.encode(b)
}

/// Relies on `Engine::decode` of base64's `STANDARD` engine: the bytes when
/// the text is valid padded base64, an error otherwise.
#[verifier::external_body]
fn decode_standard(s: &str) -> (r: Result<Vec<u8>, base64::DecodeError>)
    ensures
        match r {
            Ok(v) => base64_decoded(s@) == Some(v@),
            Err(_) => base64_decoded(s@) is None,
        },
{
    STANDARD.decode(s)
}

/// Why a request body could not be read.
#[derive(Debug, Clone, Copy, PartialEq, Eq, Structural)]
pub enum BodyError {
    /// The text is not valid standard base64.
    InvalidBase64,
}

/// The base64 text that carries the JSON bytes `json`.
pub fn serialize(json: &[u8]) -> (r: String)
    requires
        json@.len() <= usize::MAX / 2,
    ensures
        r@ == base64_of(json@),
        base64_decoded(r@) == Some(json@),
{
    encode_standard(json)
}

/// The JSON bytes that the base64 text `text` carries.
pub fn deserialize(text: &str) -> (r: Result<Vec<u8>, BodyError>)
    ensures
        match r {
            Ok(v) => base64_decoded(text@) == Some(v@),
            Err(e) => e == BodyError::InvalidBase64 && base64_decoded(text@) is None,
        },
{
    match decode_standard(text) {
        Ok(v) => Ok(v),
        Err(_) => Err(BodyError::InvalidBase64),
    }
}

} // verus!
