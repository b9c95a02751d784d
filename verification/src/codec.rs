//! Trusted boundary to the outside binary-to-text codecs and the address
//! parser. Each wrapper names the outside function it relies on; everything
//! downstream is proved against these contracts.
use vstd::prelude::*;

verus! {

/// The standard (padded) base64 text of a byte sequence.
pub uninterp spec fn base64_of(bytes: Seq<u8>) -> Seq<char>;

/// The standard (padded) base32 text of a byte sequence.
pub uninterp spec fn base32_of(bytes: Seq<u8>) -> Seq<char>;

/// Whether a string is the canonical textual encoding of a ledger address.
pub uninterp spec fn addr_valid(s: Seq<char>) -> bool;

/// Relies on data_encoding::BASE64.encode (RFC 4648 base64 with padding):
/// the result depends on the input bytes alone. The encoder may panic above
/// usize::MAX / 512 input bytes, so such inputs are excluded.
#[verifier::external_body]
pub(crate) fn base64_encode(bytes: &[u8]) -> (r: String)
    requires
        bytes@.len() <= usize::MAX / 512,
    ensures
        r@ == base64_of(bytes@),
{
    data_encoding::BASE64.encode(bytes)
}

/// Relies on data_encoding::BASE32.encode (RFC 4648 base32 with padding):
/// the result depends on the input bytes alone. The encoder may panic above
/// usize::MAX / 512 input bytes, so such inputs are excluded.
#[verifier::external_body]
pub(crate) fn base32_encode(bytes: &[u8]) -> (r: String)
    requires
        bytes@.len() <= usize::MAX / 512,
    ensures
        r@ == base32_of(bytes@),
{
    data_encoding::BASE32.encode(bytes)
}

/// Relies on algonaut::core::Address::from_str, which accepts exactly the
/// canonical base32-with-checksum textual encoding of an address; validity
/// depends on the string alone.
#[verifier::external_body]
pub(crate) fn addr_check(s: &str) -> (r: bool)
    ensures
        r == addr_valid(s@),
{
    s.parse::<algonaut::core::Address>().is_ok()
}

} // verus!
