//! The digest engine: size, SHA-256 digest and CRC-32 checksum of a buffer.
//!
//! Both hashes are computed by outside crates. Their results are named by
//! the spec functions [`sha256`] and [`crc32`]; everything the library
//! states about a digest or a checksum is stated over these two names.

use sha2::Digest;
use vstd::prelude::*;

use crate::text::{hex_lower, hex_text, is_hex_digit, lemma_hex_text_shape};

verus! {

/// The SHA-256 hash of `data`, as its 32 raw bytes.
pub uninterp spec fn sha256(data: Seq<u8>) -> Seq<u8>;

/// The CRC-32 checksum of `data` (the IEEE polynomial, as in zlib and PNG).
pub uninterp spec fn crc32(data: Seq<u8>) -> u32;

/// Calls `Sha256::digest` of the crate `sha2`. Trusted: the bytes returned
/// are the SHA-256 hash of `data`, which depends on `data` alone, and there
/// are 32 of them.
#[verifier::external_body]
fn sha256_bytes(data: &[u8]) -> (out: Vec<u8>)
    ensures
        out@ == sha256(data@),
        out@.len() == 32,
{
    sha2::Sha256::digest(data).to_vec()
}

/// Calls `hash` of the crate `crc32fast`. Trusted: the number returned is
/// the CRC-32 checksum of `data`, which depends on `data` alone.
#[verifier::external_body]
fn crc32_value(data: &[u8]) -> (out: u32)
    ensures
        out == crc32(data@),
{
    crc32fast::hash(data)
}

/// The digest of `data` as it stands in a manifest: its SHA-256 hash in
/// lowercase hexadecimal.
pub open spec fn digest_text(data: Seq<u8>) -> Seq<char> {
    hex_text(sha256(data))
}

/// Whether `text` has the shape of a digest: 64 lowercase hexadecimal
/// digits.
pub open spec fn is_digest_shaped(text: Seq<char>) -> bool {
    &&& text.len() == 64
    &&& forall|i: int| 0 <= i < text.len() ==> is_hex_digit(#[trigger] text[i])
}

/// What the digest engine computes from one buffer.
pub struct Fingerprint {
    /// The number of bytes.
    pub size: u64,
    /// The SHA-256 hash, in lowercase hexadecimal.
    pub digest: String,
    /// The CRC-32 checksum.
    pub checksum: u32,
}

/// The SHA-256 digest of `data` in lowercase hexadecimal.
pub fn digest_of(data: &[u8]) -> (out: String)
    ensures
        out@ == digest_text(data@),
        is_digest_shaped(out@),
{
    let raw = sha256_bytes(data);
    proof {
        lemma_hex_text_shape(raw@);
    }
    hex_lower(raw.as_slice())
}

/// The CRC-32 checksum of `data`.
pub fn checksum_of(data: &[u8]) -> (out: u32)
    ensures
        out == crc32(data@),
{
    crc32_value(data)
}

/// Size, digest and checksum of `data`, all three from the same bytes.
pub fn fingerprint(data: &[u8]) -> (out: Fingerprint)
    ensures
        out.size == data@.len(),
        out.digest@ == digest_text(data@),
        is_digest_shaped(out.digest@),
        out.checksum == crc32(data@),
{
    Fingerprint { size: data.len() as u64, digest: digest_of(data), checksum: checksum_of(data) }
}

} // verus!
