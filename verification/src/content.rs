//! Content identifiers and multihashes, as the plain values the store reads,
//! together with the calls that compute their binary form and their digests.

use multihash_codetable::MultihashDigest;
use vstd::prelude::*;

verus! {

/// Codec of DAG-PB data, the only codec of a version 0 identifier.
pub const DAG_PB: u64 = 0x70;

/// Codec of DAG-CBOR data, the canonical codec of the graph.
pub const DAG_CBOR: u64 = 0x71;

/// Codec of plain CBOR data.
pub const CBOR: u64 = 0x51;

/// Codec of raw data.
pub const IPLD_RAW: u64 = 0x55;

/// Hash function code of SHA2-256.
pub const SHA2_256: u64 = 0x12;

/// Hash function code of BLAKE2b-256, the canonical hash function.
pub const BLAKE2B_256: u64 = 0xb220;

/// Length in bytes of a BLAKE2b-256 digest.
pub const BLAKE2B_256_LEN: usize = 32;

/// The longest digest a multihash holds.
pub const MAX_DIGEST_LEN: usize = 64;

/// The version of a content identifier.
#[derive(Clone, Copy, Debug, PartialEq, Eq, Structural)]
pub enum Version {
    V0,
    V1,
}

/// What a [`Multihash`] is: the code of a hash function and a digest.
pub struct MultihashView {
    pub code: u64,
    pub digest: Seq<u8>,
}

impl MultihashView {
    /// The digest is no longer than a multihash can hold.
    pub open spec fn wf(self) -> bool {
        self.digest.len() <= MAX_DIGEST_LEN
    }
}

/// What a [`Cid`] is: version, codec and multihash.
pub struct CidView {
    pub version: Version,
    pub codec: u64,
    pub hash: MultihashView,
}

impl CidView {
    /// The multihash is well formed, and a version 0 identifier names DAG-PB
    /// data by a SHA2-256 digest of 32 bytes.
    pub open spec fn wf(self) -> bool {
        &&& self.hash.wf()
        &&& self.version == Version::V0 ==> {
            &&& self.codec == DAG_PB
            &&& self.hash.code == SHA2_256
            &&& self.hash.digest.len() == 32
        }
    }

    /// The key under which the store keeps the block that `self` names.
    pub open spec fn key(self) -> Seq<u8> {
        cid_bytes(self)
    }

    /// Reading the key of `self` gives `self` again. [`Cid::to_bytes`]
    /// establishes this of every identifier whose key it writes.
    pub open spec fn key_reads_back(self) -> bool {
        cid_parse(self.key()) == Some(self)
    }
}

/// The binary form of a content identifier, as `cid::Cid::to_bytes` writes it.
pub uninterp spec fn cid_bytes(cid: CidView) -> Seq<u8>;

/// The content identifier that `cid::Cid::try_from` reads from the front of
/// `bytes`, or `None` where it reads none.
pub uninterp spec fn cid_parse(bytes: Seq<u8>) -> Option<CidView>;

/// The digest in the multihash that
/// `multihash_codetable::Code::Blake2b256.digest` gives for `data`.
pub uninterp spec fn blake2b_256(data: Seq<u8>) -> Seq<u8>;

/// The type of the errors of `cid::Cid::try_from`.
#[verifier::external_type_specification]
#[verifier::external_body]
pub struct ExCidError(cid::Error);

/// A hash function code with the digest that the function gave.
#[derive(Debug)]
pub struct Multihash {
    code: u64,
    digest: Vec<u8>,
}

impl View for Multihash {
    type V = MultihashView;

    closed spec fn view(&self) -> MultihashView {
        MultihashView { code: self.code, digest: self.digest@ }
    }
}

/// Why a multihash or an identifier cannot be made from the given parts.
#[derive(Clone, Copy, Debug, PartialEq, Eq, Structural)]
pub enum ContentError {
    /// The digest is longer than [`MAX_DIGEST_LEN`].
    DigestTooLong,
    /// A version 0 identifier needs a SHA2-256 digest of 32 bytes.
    InvalidV0Multihash,
}

/// Calls `multihash_codetable::Code::Blake2b256.digest` and copies code and
/// digest out of the multihash. The contract names the digest, and says
/// that the code is that of BLAKE2b-256 and the digest 32 bytes long.
#[verifier::external_body]
fn blake2b_256_multihash(data: &[u8]) -> (hash: Multihash)
    ensures
        hash@.code == BLAKE2B_256,
        hash@.digest == blake2b_256(data@),
        hash@.digest.len() == BLAKE2B_256_LEN,
{
    let hash = multihash_codetable::Code::Blake2b256.digest(data);
    Multihash { code: hash.code(), digest: hash.digest().to_vec() }
}

impl Multihash {
    #[verifier::type_invariant]
    spec fn inv(self) -> bool {
        self@.wf()
    }

    /// Wraps a digest that the hash function `code` gave. Fails on a digest
    /// of more than [`MAX_DIGEST_LEN`] bytes, and on no other.
    pub fn wrap(code: u64, digest: &[u8]) -> (r: Result<Multihash, ContentError>)
        ensures
            digest@.len() <= MAX_DIGEST_LEN ==> r is Ok && r->Ok_0@ == (MultihashView {
                code,
                digest: digest@,
            }),
            digest@.len() > MAX_DIGEST_LEN ==> r == Err::<Multihash, ContentError>(
                ContentError::DigestTooLong,
            ),
    {
        if digest.len() > MAX_DIGEST_LEN {
            return Err(ContentError::DigestTooLong);
        }
        Ok(Multihash { code, digest: vstd::slice::slice_to_vec(digest) })
    }

    /// The BLAKE2b-256 multihash of `data`.
    pub fn blake2b_256(data: &[u8]) -> (r: Multihash)
        ensures
            r@ == canonical_hash(data@),
    {
        blake2b_256_multihash(data)
    }

    /// The code of the hash function.
    pub fn code(&self) -> (r: u64)
        ensures
            r == self@.code,
    {
        self.code
    }

    /// The length of the digest in bytes.
    pub fn size(&self) -> (r: u8)
        ensures
            r == self@.digest.len(),
            self@.wf(),
    {
        proof {
            use_type_invariant(self);
        }
        self.digest.len() as u8
    }

    /// The digest.
    pub fn digest(&self) -> (r: &[u8])
        ensures
            r@ == self@.digest,
            self@.wf(),
    {
        proof {
            use_type_invariant(self);
        }
        self.digest.as_slice()
    }
}

impl Clone for Multihash {
    fn clone(&self) -> (r: Self)
        ensures
            r@ == self@,
    {
        proof {
            use_type_invariant(self);
        }
        Multihash { code: self.code, digest: self.digest.clone() }
    }
}

impl PartialEq for Multihash {
    fn eq(&self, other: &Self) -> (r: bool) {
        self.code == other.code && bytes_equal(self.digest.as_slice(), other.digest.as_slice())
    }
}

impl vstd::std_specs::cmp::PartialEqSpecImpl for Multihash {
    open spec fn obeys_eq_spec() -> bool {
        true
    }

    open spec fn eq_spec(&self, other: &Self) -> bool {
        self@ == other@
    }
}

impl Eq for Multihash {

}

/// Whether two sequences of bytes are the same.
pub fn bytes_equal(a: &[u8], b: &[u8]) -> (r: bool)
    ensures
        r == (a@ == b@),
{
    if a.len() != b.len() {
        return false;
    }
    let mut i: usize = 0;
    while i < a.len()
        invariant
            a@.len() == b@.len(),
            i <= a.len(),
            forall|j: int| 0 <= j < i ==> a@[j] == b@[j],
        decreases a.len() - i,
    {
        if a[i] != b[i] {
            return false;
        }
        i += 1;
    }
    assert(a@ =~= b@);
    true
}

/// A content identifier: it names a block by the codec of its data and a
/// multihash of its bytes.
#[derive(Debug)]
pub struct Cid {
    version: Version,
    codec: u64,
    hash: Multihash,
}

impl View for Cid {
    type V = CidView;

    closed spec fn view(&self) -> CidView {
        CidView { version: self.version, codec: self.codec, hash: self.hash@ }
    }
}

/// Calls `cid::Cid::to_bytes` on the identifier with the parts of `cid`. The
/// contract names the bytes, and says that `cid::Cid::try_from` reads from
/// them the identifier that was written.
#[verifier::external_body]
fn encode_cid(cid: &Cid) -> (bytes: Vec<u8>)
    requires
        cid@.wf(),
    ensures
        bytes@ == cid_bytes(cid@),
        cid_parse(bytes@) == Some(cid@),
{
    let hash = cid::multihash::Multihash::<64>::wrap(cid.hash.code, &cid.hash.digest).unwrap();
    let version = match cid.version {
        Version::V0 => cid::Version::V0,
        Version::V1 => cid::Version::V1,
    };
    cid::Cid::new(version, cid.codec, hash).unwrap().to_bytes()
}

/// Calls `cid::Cid::try_from` on `bytes` and copies the parts of the
/// identifier out. The contract names what was read, and says that an
/// identifier that was read is well formed.
#[verifier::external_body]
fn decode_cid(bytes: &[u8]) -> (r: Result<Cid, cid::Error>)
    ensures
        r matches Ok(cid) ==> cid@.wf() && cid_parse(bytes@) == Some(cid@),
        r is Err ==> cid_parse(bytes@) is None,
{
    let parsed = cid::Cid::try_from(bytes)?;
    let version = match parsed.version() {
        cid::Version::V0 => Version::V0,
        cid::Version::V1 => Version::V1,
    };
    let hash = Multihash { code: parsed.hash().code(), digest: parsed.hash().digest().to_vec() };
    Ok(Cid { version, codec: parsed.codec(), hash })
}

impl Cid {
    #[verifier::type_invariant]
    spec fn inv(self) -> bool {
        self@.wf()
    }

    /// The version 1 identifier of data of `codec` with multihash `hash`.
    pub fn new_v1(codec: u64, hash: Multihash) -> (r: Cid)
        ensures
            r@ == (CidView { version: Version::V1, codec, hash: hash@ }),
    {
        proof {
            use_type_invariant(&hash);
        }
        Cid { version: Version::V1, codec, hash }
    }

    /// The version 0 identifier with multihash `hash`. Fails unless `hash`
    /// is a SHA2-256 digest of 32 bytes.
    pub fn new_v0(hash: Multihash) -> (r: Result<Cid, ContentError>)
        ensures
            hash@.code == SHA2_256 && hash@.digest.len() == 32 ==> r is Ok && r->Ok_0@ == (CidView {
                version: Version::V0,
                codec: DAG_PB,
                hash: hash@,
            }),
            !(hash@.code == SHA2_256 && hash@.digest.len() == 32) ==> r == Err::<
                Cid,
                ContentError,
            >(ContentError::InvalidV0Multihash),
    {
        if hash.code() != SHA2_256 || hash.size() != 32 {
            return Err(ContentError::InvalidV0Multihash);
        }
        Ok(Cid { version: Version::V0, codec: DAG_PB, hash })
    }

    /// The version.
    pub fn version(&self) -> (r: Version)
        ensures
            r == self@.version,
    {
        self.version
    }

    /// The codec.
    pub fn codec(&self) -> (r: u64)
        ensures
            r == self@.codec,
    {
        self.codec
    }

    /// The multihash.
    pub fn hash(&self) -> (r: &Multihash)
        ensures
            r@ == self@.hash,
            self@.wf(),
    {
        proof {
            use_type_invariant(self);
        }
        &self.hash
    }

    /// The binary form of the identifier, which is the key of its block.
    pub fn to_bytes(&self) -> (bytes: Vec<u8>)
        ensures
            bytes@ == self@.key(),
            self@.key_reads_back(),
            self@.wf(),
    {
        proof {
            use_type_invariant(self);
        }
        encode_cid(self)
    }

    /// Reads an identifier from the front of `bytes`. `None` where
    /// `bytes` does not begin with one.
    pub fn from_bytes(bytes: &[u8]) -> (r: Option<Cid>)
        ensures
            r matches Some(cid) ==> cid@.wf() && cid_parse(bytes@) == Some(cid@),
            r is None ==> cid_parse(bytes@) is None,
    {
        match decode_cid(bytes) {
            Ok(cid) => Some(cid),
            Err(_) => None,
        }
    }
}

impl Clone for Cid {
    fn clone(&self) -> (r: Self)
        ensures
            r@ == self@,
    {
        proof {
            use_type_invariant(self);
        }
        Cid { version: self.version, codec: self.codec, hash: self.hash.clone() }
    }
}

impl PartialEq for Cid {
    fn eq(&self, other: &Self) -> (r: bool) {
        self.version == other.version && self.codec == other.codec && self.hash == other.hash
    }
}

impl vstd::std_specs::cmp::PartialEqSpecImpl for Cid {
    open spec fn obeys_eq_spec() -> bool {
        true
    }

    open spec fn eq_spec(&self, other: &Self) -> bool {
        self@ == other@
    }
}

impl Eq for Cid {

}

/// The BLAKE2b-256 multihash of `data`: what identifies a block of the
/// canonical column.
pub open spec fn canonical_hash(data: Seq<u8>) -> MultihashView {
    MultihashView { code: BLAKE2B_256, digest: blake2b_256(data) }
}

/// The identifier of `block` in the canonical column: DAG-CBOR data named by
/// its BLAKE2b-256 digest.
pub open spec fn canonical_cid(block: Seq<u8>) -> CidView {
    CidView { version: Version::V1, codec: DAG_CBOR, hash: canonical_hash(block) }
}

} // verus!
