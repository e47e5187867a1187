//! The message checksum: a double SHA-256 digest truncated to four
//! bytes, read as a little-endian integer.

use sha2::Digest;
use vstd::bytes::*;
use vstd::prelude::*;
use vstd::slice::slice_subrange;

verus! {

/// The SHA-256 digest of a byte sequence. The digest itself is
/// computed by an outside crate; the library names its result and
/// states only what the documentation promises (32 bytes, a pure
/// function of the input).
pub uninterp spec fn sha256_of(data: Seq<u8>) -> Seq<u8>;

/// Relies on sha2::Sha256: the digest is 32 bytes long and depends on
/// the input bytes alone.
#[verifier::external_body]
fn sha256_digest(data: &[u8]) -> (r: Vec<u8>)
    ensures
        r@ == sha256_of(data@),
        r@.len() == 32,
{
    let mut hasher = sha2::Sha256::new();
    hasher.update(data);
    hasher.finalize().to_vec()
}

/// The checksum of a payload: the first four bytes of the double
/// SHA-256 digest, as a little-endian unsigned integer.
pub open spec fn spec_checksum(payload: Seq<u8>) -> u32 {
    spec_u32_from_le_bytes(sha256_of(sha256_of(payload)).subrange(0, 4))
}

/// A byte container that can produce the protocol checksum of its
/// contents.
pub trait Checksum {
    spec fn bytes(&self) -> Seq<u8>;

    fn sha256(&self) -> (r: u32)
        ensures
            r == spec_checksum(self.bytes()),
    ;
}

impl Checksum for Vec<u8> {
    open spec fn bytes(&self) -> Seq<u8> {
        self@
    }

    fn sha256(&self) -> (r: u32) {
        checksum_slice(self.as_slice())
    }
}

/// Computes the checksum of a byte slice: digest twice, truncate to
/// four bytes, read little-endian.
pub fn checksum_slice(payload: &[u8]) -> (r: u32)
    ensures
        r == spec_checksum(payload@),
{
    let first = sha256_digest(payload);
    let second = sha256_digest(first.as_slice());
    let head = slice_subrange(second.as_slice(), 0, 4);
    u32_from_le_bytes(head)
}

} // verus!
