//! Base64 transport decoding, behind a trusted wrapper around the base64
//! crate's standard engine.

use base64::Engine;
use vstd::prelude::*;

verus! {

/// What standard base64 decoding (with padding) yields for a character
/// sequence: the decoded bytes when the input is well-formed, else the
/// decode error's display text. Both are functions of the input alone.
pub uninterp spec fn b64_of(s: Seq<char>) -> Result<Seq<u8>, Seq<char>>;

/// Relies on base64's general_purpose::STANDARD engine: decoding is a pure
/// function of the input characters; it yields bytes exactly when the input
/// is well-formed standard base64, and the error's display text otherwise.
#[verifier::external_body]
pub(crate) fn decode_base64(s: &str) -> (r: Result<Vec<u8>, String>)
    ensures
        r is Ok <==> b64_of(s@) is Ok,
        r matches Ok(v) ==> b64_of(s@) matches Ok(b) && v@ == b,
        r matches Err(m) ==> b64_of(s@) matches Err(t) && m@ == t,
{
    match base64::engine::general_purpose::STANDARD.decode(s) {
        Ok(v) => Ok(v),
        Err(e) => Err(format!("{}", e)),
    }
}

} // verus!
