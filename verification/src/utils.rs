//! The 32-byte digest type.

use vstd::prelude::*;
use vstd::string::StringSliceAdditionalSpecFns;
use crate::crypto::{sha256, sha256_digest};
use crate::encoding::{hex_encode, hex_text};

verus! {

/// Number of bytes in a digest.
pub const DIGEST_LEN: usize = 32;

/// The all-zero digest as a byte sequence.
pub open spec fn zero_digest() -> Seq<u8> {
    Seq::new(32, |i: int| 0u8)
}

/// A SHA-256 digest: exactly 32 bytes, compared byte by byte.
#[derive(Debug, Copy, Clone, PartialEq)]
pub struct Hash32([u8; 32]);

impl View for Hash32 {
    type V = Seq<u8>;

    closed spec fn view(&self) -> Seq<u8> {
        self.0@
    }
}

impl Hash32 {
    /// Every digest is 32 bytes long.
    pub proof fn lemma_len(self)
        ensures
            self@.len() == DIGEST_LEN,
    {
    }

    /// Hashes the 32 given bytes. The input is hashed, not stored.
    pub fn from_bytes(bytes: [u8; 32]) -> (h: Self)
        ensures
            h@ == sha256_digest(bytes@),
            h@.len() == 32,
    {
        Hash32(sha256(bytes.as_slice()))
    }

    /// Hashes the UTF-8 encoding of `string`.
    pub fn from_string(string: &str) -> (h: Self)
        ensures
            h@ == sha256_digest(string.spec_bytes()),
            h@.len() == 32,
    {
        Hash32(sha256(string.as_bytes()))
    }

    /// Hashes `data`.
    pub fn digest(data: &[u8]) -> (h: Self)
        ensures
            h@ == sha256_digest(data@),
            h@.len() == 32,
    {
        Hash32(sha256(data))
    }

    /// The digest as text: 64 lowercase hexadecimal digits, no prefix.
    pub fn to_hex(&self) -> (text: String)
        ensures
            text@ == hex_text(self@),
            text@.len() == 64,
    {
        hex_encode(self.0.as_slice())
    }

    /// Whether the two digests hold the same bytes.
    pub fn same_as(&self, other: &Hash32) -> (same: bool)
        ensures
            same == (self@ == other@),
    {
        let mut i: usize = 0;
        while i < DIGEST_LEN
            invariant
                i <= DIGEST_LEN,
                forall|j: int| 0 <= j < i ==> self@[j] == other@[j],
            decreases DIGEST_LEN - i,
        {
            if self.0[i] != other.0[i] {
                return false;
            }
            i += 1;
        }
        assert(self@ =~= other@);
        true
    }

    /// The first `len` bytes of the digest.
    pub fn get_substr(&self, len: usize) -> (prefix: &[u8])
        requires
            len <= DIGEST_LEN,
        ensures
            prefix@ == self@.subrange(0, len as int),
    {
        &self.0[0..len]
    }
}

impl Default for Hash32 {
    /// The all-zero digest, which stands for "no predecessor".
    fn default() -> (h: Self)
        ensures
            h@ == zero_digest(),
    {
        let h = Hash32([0u8; 32]);
        assert(h@ =~= zero_digest());
        h
    }
}

} // verus!
