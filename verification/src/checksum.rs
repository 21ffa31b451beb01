//! The content checksum recorded at persistence time.
//!
//! The checksum is a digest of the normalized markdown text alone, so it
//! is stable across re-runs and independent of how the text was later
//! chunked.  The digest itself is an outside computation; its value is
//! named by [`sha256_hex_of`], a pure function of the input bytes.

use vstd::prelude::*;
use vstd::utf8::encode_utf8;

verus! {

/// The SHA-256 digest of the bytes, written as lowercase hex.
pub uninterp spec fn sha256_hex_of(data: Seq<u8>) -> Seq<char>;

/// Relies on `sha2::Sha256`: the digest is a pure function of the input
/// bytes, 32 bytes long, here formatted as 64 hex characters.
#[verifier::external_body]
pub(crate) fn sha256_hex(data: &[u8]) -> (r: String)
    ensures
        r@ == sha256_hex_of(data@),
        r@.len() == 64,
{
    let mut h = <sha2::Sha256 as sha2::Digest>::new();
    sha2::Digest::update(&mut h, data);
    let d = sha2::Digest::finalize(h);
    format!("{:x}", d)
}

/// The checksum of a text: the digest of its UTF-8 bytes.
pub open spec fn spec_checksum(text: Seq<char>) -> Seq<char> {
    sha256_hex_of(encode_utf8(text))
}

/// Computes the checksum of a text.
pub fn checksum_of(text: &str) -> (r: String)
    ensures
        r@ == spec_checksum(text@),
        r@.len() == 64,
{
    sha256_hex(text.as_bytes())
}

} // verus!
