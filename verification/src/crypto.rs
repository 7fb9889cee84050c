//! Cryptographic digests.
use vstd::prelude::*;

verus! {

/// The SHA-512/256 digest of a byte string.
pub uninterp spec fn sha512_256(data: Seq<u8>) -> Seq<u8>;

/// Number of bytes in a digest.
pub const HASH_SIZE: usize = 32;

/// A 256-bit digest.
#[derive(Clone, Copy, Debug, PartialEq, Eq)]
pub struct Hash(pub [u8; 32]);

impl View for Hash {
    type V = Seq<u8>;

    open spec fn view(&self) -> Seq<u8> {
        self.0@
    }
}

impl Hash {
    /// Digest of the given bytes.
    pub fn digest_bytes(data: &[u8]) -> (hash: Hash)
        ensures
            hash@ == sha512_256(data@),
            hash@.len() == HASH_SIZE,
    {
        Hash(sha512_256_digest(data))
    }

    /// Digest of the empty byte string.
    pub fn empty_hash() -> (hash: Hash)
        ensures
            hash@ == sha512_256(Seq::<u8>::empty()),
    {
        let empty: Vec<u8> = Vec::new();
        Hash::digest_bytes(empty.as_slice())
    }

    /// The first `n` bytes of the digest.
    pub fn truncated(&self, n: usize) -> (prefix: Vec<u8>)
        requires
            n <= HASH_SIZE,
        ensures
            prefix@ == self@.take(n as int),
    {
        let mut prefix: Vec<u8> = Vec::new();
        let mut i: usize = 0;
        while i < n
            invariant
                i <= n <= HASH_SIZE,
                prefix@ == self@.take(i as int),
            decreases n - i,
        {
            prefix.push(self.0[i]);
            i += 1;
            assert(prefix@ =~= self@.take(i as int));
        }
        prefix
    }

    /// The digest that holds the given bytes, if there are thirty-two.
    pub fn from_bytes(data: &[u8]) -> (hash: Option<Hash>)
        ensures
            hash is Some <==> data@.len() == HASH_SIZE,
            hash matches Some(h) ==> h@ == data@,
    {
        if data.len() != HASH_SIZE {
            return None;
        }
        let mut bytes: [u8; 32] = [0u8; 32];
        let mut i: usize = 0;
        while i < HASH_SIZE
            invariant
                i <= HASH_SIZE,
                data@.len() == HASH_SIZE,
                forall|j: int| 0 <= j < i ==> bytes@[j] == data@[j],
            decreases HASH_SIZE - i,
        {
            bytes[i] = data[i];
            i += 1;
        }
        assert(bytes@ =~= data@);
        Some(Hash(bytes))
    }

    /// The bytes of the digest.
    pub fn to_vec(&self) -> (bytes: Vec<u8>)
        ensures
            bytes@ == self@,
    {
        let bytes = self.truncated(HASH_SIZE);
        assert(self@.take(HASH_SIZE as int) =~= self@);
        bytes
    }

    /// Whether two digests hold the same bytes.
    pub fn same(&self, other: &Hash) -> (equal: bool)
        ensures
            equal == (self@ == other@),
    {
        let mut i: usize = 0;
        while i < HASH_SIZE
            invariant
                i <= HASH_SIZE,
                forall|j: int| 0 <= j < i ==> self@[j] == other@[j],
            decreases HASH_SIZE - i,
        {
            if self.0[i] != other.0[i] {
                return false;
            }
            i += 1;
        }
        assert(self@ =~= other@);
        true
    }
}

/// Calls `Digest::digest` of the `sha2` crate for `Sha512_256`, which hashes
/// the bytes in one go and returns the digest of 32 bytes. The claim is that
/// the digest depends on the bytes alone: it is what [`sha512_256`] names.
#[verifier::external_body]
fn sha512_256_digest(data: &[u8]) -> (digest: [u8; 32])
    ensures
        digest@ == sha512_256(data@),
{
    <sha2::Sha512_256 as sha2::Digest>::digest(data).into()
}

} // verus!
