//! Calls into std that vstd gives no specification.
use vstd::prelude::*;

use vstd::string::StringSliceAdditionalSpecFns;
use vstd::utf8::valid_utf8;

verus! {

/// Calls `std::str::from_utf8`. Its documentation states that it returns the
/// text exactly when the bytes are valid UTF-8; the text's bytes are then the
/// input bytes. This contract claims that much.
#[verifier::external_body]
pub(crate) fn str_from_utf8(bytes: &[u8]) -> (r: Option<&str>)
    ensures
        r is Some <==> valid_utf8(bytes@),
        r matches Some(s) ==> s.spec_bytes() == bytes@,
{
    std::str::from_utf8(bytes).ok()
}

} // verus!
