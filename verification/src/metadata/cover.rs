//! Cover art as text: image bytes in the standard base64 alphabet.

use vstd::prelude::*;

verus! {

/// What `base64::Engine::encode` gives for `bytes` on the engine
/// `base64::engine::general_purpose::STANDARD`: the bytes in the alphabet of
/// RFC 4648 with `+` and `/`, padded with `=`.
pub uninterp spec fn base64_standard(bytes: Seq<u8>) -> Seq<char>;

/// The encoded text of `len` bytes has a length that a `usize` can hold.
pub open spec fn encodable_len(len: nat) -> bool {
    (len / 3) * 4 + 4 <= usize::MAX
}

/// Calls `base64::Engine::encode` on `STANDARD`, which panics where the
/// encoded length overflows `usize`. Trusted: the result is the one named
/// `base64_standard`.
#[verifier::external_body]
pub(crate) fn encode_standard(bytes: &[u8]) -> (text: String)
    requires
        encodable_len(bytes@.len()),
    ensures
        text@ == base64_standard(bytes@),
{
    base64::Engine::encode(&base64::engine::general_purpose::STANDARD, bytes)
}

/// Whether an image of `len` bytes can be encoded on this machine.
pub fn can_encode(len: usize) -> (yes: bool)
    ensures
        yes == encodable_len(len as nat),
{
    len / 3 <= (usize::MAX - 4) / 4
}

} // verus!
