//! The cache version: a rolling SHA-256 state over a seed plus any caller
//! supplied version data, carried as a hex digest. All lookups and uploads
//! are namespaced by it, so two sessions with different version data can
//! never see each other's entries.

use vstd::prelude::*;

verus! {

/// The SHA-256 digest of a byte string. The digest of given bytes depends
/// on those bytes alone; nothing shorter than the algorithm itself says
/// which value it is.
pub uninterp spec fn sha256_of(data: Seq<u8>) -> Seq<u8>;

/// Relies on sha2's `Sha256`: a 32-byte digest, a function of the input
/// bytes alone.
#[verifier::external_body]
pub(crate) fn sha256_digest(data: &[u8]) -> (r: Vec<u8>)
    ensures
        r@ == sha256_of(data@),
        r@.len() == 32,
{
    let mut hasher = <sha2::Sha256 as sha2::Digest>::new();
    sha2::Digest::update(&mut hasher, data);
    sha2::Digest::finalize(hasher).to_vec()
}

/// The ASCII byte of a nibble's lowercase hex digit.
pub open spec fn hex_digit(nibble: u8) -> u8 {
    if nibble < 10 {
        (0x30 + nibble) as u8
    } else {
        (0x61 + (nibble - 10)) as u8
    }
}

/// Lowercase hex encoding: two digits for each byte, high nibble first.
pub open spec fn hex_of(data: Seq<u8>) -> Seq<u8> {
    Seq::new(
        data.len() * 2,
        |i: int|
            if i % 2 == 0 {
                hex_digit(data[i / 2] / 16)
            } else {
                hex_digit(data[i / 2] % 16)
            },
    )
}

/// Relies on hex::encode: lowercase hex, two digits per byte, high nibble
/// first.
#[verifier::external_body]
pub(crate) fn hex_encode_lower(data: &[u8]) -> (r: Vec<u8>)
    ensures
        r@ == hex_of(data@),
{
    hex::encode(data).into_bytes()
}

/// The version namespace: the accumulated bytes fed to the rolling hash,
/// and the hex digest over them.
pub struct CacheVersion {
    data: Vec<u8>,
    hex: Vec<u8>,
}

impl CacheVersion {
    /// The bytes hashed so far.
    pub closed spec fn spec_data(self) -> Seq<u8> {
        self.data@
    }

    /// The digest carried.
    pub closed spec fn spec_hex(self) -> Seq<u8> {
        self.hex@
    }

    /// The digest is always the hex of the hash of the accumulated bytes.
    pub closed spec fn wf(self) -> bool {
        self.hex@ == hex_of(sha256_of(self.data@))
    }

    /// Starts the version from a seed.
    pub fn new(seed: &[u8]) -> (r: CacheVersion)
        ensures
            r.wf(),
            r.spec_data() == seed@,
    {
        let digest = sha256_digest(seed);
        let hex = hex_encode_lower(digest.as_slice());
        let mut data: Vec<u8> = Vec::new();
        data.extend_from_slice(seed);
        proof {
            assert(data@ =~= seed@);
        }
        CacheVersion { data, hex }
    }

    /// Appends bytes to the version data and refreshes the digest.
    pub fn mutate(&mut self, more: &[u8])
        requires
            old(self).wf(),
        ensures
            final(self).wf(),
            final(self).spec_data() == old(self).spec_data() + more@,
    {
        self.data.extend_from_slice(more);
        proof {
            assert(self.data@ =~= old(self).data@ + more@);
        }
        let digest = sha256_digest(self.data.as_slice());
        self.hex = hex_encode_lower(digest.as_slice());
    }

    /// The current hex digest.
    pub fn current(&self) -> (r: &Vec<u8>)
        ensures
            r@ == self.spec_hex(),
            self.wf() ==> r@ == hex_of(sha256_of(self.spec_data())),
    {
        &self.hex
    }
}

} // verus!
