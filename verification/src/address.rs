//! Content identifiers: a version, the codec of the block, and the hash of
//! its bytes.

use vstd::prelude::*;
use crate::bytes::copy_bytes;
use multihash::MultihashDigest;

verus! {

/// The multicodec code of DAG-CBOR.
pub const DAG_CBOR: u64 = 0x71;

/// The multicodec code of DAG-PB, the only codec of a version 0 identifier.
pub const DAG_PB: u64 = 0x70;

/// The multihash code of SHA2-256, the only hash of a version 0 identifier.
pub const SHA2_256: u64 = 0x12;

/// The multihash code of BLAKE2b-256.
pub const BLAKE2B_256: u64 = 0xb220;

/// The longest digest that an identifier can carry, in bytes.
pub const MAX_DIGEST: usize = 64;

/// The version of a content identifier.
#[derive(Clone, Copy, Debug, PartialEq, Eq, Structural)]
pub enum Version {
    V0,
    V1,
}

/// A hash digest tagged with the code of the function that made it.
#[derive(Debug, PartialEq, Eq)]
pub struct Multihash {
    pub code: u64,
    pub digest: Vec<u8>,
}

/// What a [`Multihash`] holds, as mathematical values.
pub struct MultihashView {
    pub code: u64,
    pub digest: Seq<u8>,
}

impl View for Multihash {
    type V = MultihashView;

    open spec fn view(&self) -> MultihashView {
        MultihashView { code: self.code, digest: self.digest@ }
    }
}

impl Clone for Multihash {
    fn clone(&self) -> (r: Self)
        ensures
            r@ == self@,
    {
        Multihash { code: self.code, digest: copy_bytes(&self.digest) }
    }
}

/// A content identifier.
#[derive(Debug, PartialEq, Eq)]
pub struct Cid {
    pub version: Version,
    pub codec: u64,
    pub hash: Multihash,
}

/// What a [`Cid`] holds, as mathematical values.
pub struct CidView {
    pub version: Version,
    pub codec: u64,
    pub hash: MultihashView,
}

impl CidView {
    /// The identifiers that exist: the digest fits, and version 0 comes only
    /// with DAG-PB and SHA2-256.
    pub open spec fn valid(self) -> bool {
        &&& self.hash.digest.len() <= MAX_DIGEST
        &&& self.version == Version::V0 ==> self.codec == DAG_PB && self.hash.code == SHA2_256
    }
}

impl View for Cid {
    type V = CidView;

    open spec fn view(&self) -> CidView {
        CidView { version: self.version, codec: self.codec, hash: self.hash@ }
    }
}

impl Clone for Cid {
    fn clone(&self) -> (r: Self)
        ensures
            r@ == self@,
    {
        Cid { version: self.version, codec: self.codec, hash: self.hash.clone() }
    }
}

/// Reads an identifier from its text.
pub fn parse_cid(text: &str) -> (out: Option<Cid>)
    ensures
        out matches Some(c) ==> cid_of_text(text@) == Some(c@) && c@.valid(),
        out is None ==> cid_of_text(text@) is None,
{
    cid_from_text(text)
}

impl Cid {
    /// The version 1 identifier of a block with the given codec and hash.
    pub fn new_v1(codec: u64, hash: Multihash) -> (c: Cid)
        ensures
            c@ == (CidView { version: Version::V1, codec, hash: hash@ }),
            hash@.digest.len() <= MAX_DIGEST ==> c@.valid(),
    {
        Cid { version: Version::V1, codec, hash }
    }

    /// The text of this identifier, where it is a valid one.
    pub fn to_text(&self) -> (out: Option<String>)
        ensures
            out is Some <==> self@.valid(),
            out matches Some(s) ==> s@ == cid_text(self@),
    {
        cid_to_text(self)
    }

    /// Whether two identifiers are the same.
    pub fn same(&self, other: &Cid) -> (b: bool)
        ensures
            b == (self@ == other@),
    {
        if self.version != other.version || self.codec != other.codec || self.hash.code
            != other.hash.code || self.hash.digest.len() != other.hash.digest.len() {
            return false;
        }
        let mut i: usize = 0;
        while i < self.hash.digest.len()
            invariant
                i <= self.hash.digest.len(),
                self.hash.digest.len() == other.hash.digest.len(),
                forall|j: int| 0 <= j < i ==> self.hash.digest[j] == other.hash.digest[j],
            decreases self.hash.digest.len() - i,
        {
            if self.hash.digest[i] != other.hash.digest[i] {
                return false;
            }
            i += 1;
        }
        assert(self.hash.digest@ =~= other.hash.digest@);
        true
    }

    /// Whether this identifier exists.
    pub fn is_valid(&self) -> (b: bool)
        ensures
            b == self@.valid(),
    {
        if self.hash.digest.len() > MAX_DIGEST {
            return false;
        }
        match self.version {
            Version::V0 => self.codec == DAG_PB && self.hash.code == SHA2_256,
            Version::V1 => true,
        }
    }
}

/// The BLAKE2b-256 digest of `data`.
pub uninterp spec fn blake2b_256(data: Seq<u8>) -> Seq<u8>;

/// The text of a valid identifier: base58btc for version 0, multibase
/// base32 in lower case for version 1.
pub uninterp spec fn cid_text(c: CidView) -> Seq<char>;

/// The identifier that a text stands for, where it stands for one.
pub uninterp spec fn cid_of_text(text: Seq<char>) -> Option<CidView>;

/// `multihash::Code::Blake2b256.digest`: the multihash of `data` has the
/// code of BLAKE2b-256 and holds the 32 bytes of that digest.
#[verifier::external_body]
pub(crate) fn blake2b_256_hash(data: &Vec<u8>) -> (h: Multihash)
    ensures
        h@.code == BLAKE2B_256,
        h@.digest == blake2b_256(data@),
        h@.digest.len() == 32,
{
    let h = multihash::Code::Blake2b256.digest(data);
    Multihash { code: h.code(), digest: h.digest().to_vec() }
}

/// `cid::Cid::to_string`, on the identifier that `cid::Cid::new` makes of
/// the three parts. `new` and `multihash::Multihash::wrap` accept exactly
/// the valid identifiers; the text depends on the parts alone.
#[verifier::external_body]
pub(crate) fn cid_to_text(c: &Cid) -> (out: Option<String>)
    ensures
        out is Some <==> c@.valid(),
        out matches Some(s) ==> s@ == cid_text(c@),
{
    let hash = multihash::Multihash::wrap(c.hash.code, &c.hash.digest).ok()?;
    let version = match c.version {
        Version::V0 => cid::Version::V0,
        Version::V1 => cid::Version::V1,
    };
    Some(cid::Cid::new(version, c.codec, hash).ok()?.to_string())
}

/// `cid::Cid::try_from` on a string: the identifier that the text stands
/// for, which is a valid one, or nothing where the text stands for none.
#[verifier::external_body]
pub(crate) fn cid_from_text(text: &str) -> (out: Option<Cid>)
    ensures
        out matches Some(c) ==> cid_of_text(text@) == Some(c@) && c@.valid(),
        out is None ==> cid_of_text(text@) is None,
{
    let c = cid::Cid::try_from(text).ok()?;
    let version = match c.version() {
        cid::Version::V0 => Version::V0,
        cid::Version::V1 => Version::V1,
    };
    let hash = Multihash { code: c.hash().code(), digest: c.hash().digest().to_vec() };
    Some(Cid { version, codec: c.codec(), hash })
}

} // verus!
