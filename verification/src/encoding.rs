//! The encoding that a header carries a message in.

use vstd::prelude::*;

use base64::engine::general_purpose::STANDARD;
use base64::Engine;

verus! {

/// Why `base64` could not decode a text.
#[verifier::external_type_specification]
#[verifier::external_body]
pub struct ExDecodeError(base64::DecodeError);

/// The bytes that the standard alphabet with padding encodes as `encoded`,
/// as `base64::engine::general_purpose::STANDARD` decodes them, and `None`
/// where it does not.
pub uninterp spec fn decoded(encoded: Seq<char>) -> Option<Seq<u8>>;

/// `base64::Engine::decode` on the engine `STANDARD`: what it returns is a
/// function of the text alone, which `decoded` names.
#[verifier::external_body]
pub(crate) fn decode(encoded: &str) -> (result: Result<Vec<u8>, base64::DecodeError>)
    ensures
        (match result {
            Ok(bytes) => Some(bytes@),
            Err(_) => None,
        }) == decoded(encoded@),
{
    STANDARD.decode(encoded)
}

} // verus!
