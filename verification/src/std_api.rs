//! The one call this library makes into the standard library for which `vstd`
//! has no specification, with the contract that the verified code relies on.
//!
//! Nothing in this file is proved: the contract restates what the standard
//! library's documentation says.

use vstd::prelude::*;
use vstd::utf8::*;

verus! {

/// The text `String::from_utf8_lossy` produces for a byte sequence that is *not*
/// valid UTF-8 (each invalid sequence replaced by U+FFFD).
pub uninterp spec fn replaced_text(bytes: Seq<u8>) -> Seq<char>;

/// Calls `String::from_utf8_lossy` and takes ownership of the result.
///
/// Trusted: per the standard library's documentation the call never fails, returns
/// valid UTF-8 input unchanged as text, and otherwise substitutes U+FFFD for each
/// invalid sequence; the latter reading is only given a name here.
#[verifier::external_body]
pub(crate) fn from_utf8_lossy(bytes: &[u8]) -> (text: String)
    ensures
        text@ == if valid_utf8(bytes@) {
            decode_utf8(bytes@)
        } else {
            replaced_text(bytes@)
        },
{
    String::from_utf8_lossy(bytes).into_owned()
}

} // verus!
