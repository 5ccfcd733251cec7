//! Blocks: the DAG-CBOR bytes of a value, and the identifier of a block.

use vstd::prelude::*;
use crate::address::{blake2b_256, blake2b_256_hash, Cid, CidView, Multihash};
use crate::address::{MultihashView, Version};
use crate::address::{BLAKE2B_256, DAG_CBOR};
use crate::bytes::text;
use crate::cbor::{is_sized, sized};
use crate::ipld::{lemma_encodable_ordered, Value, ValueView};
use libipld::cbor::DagCborCodec;
use libipld::codec::Codec;
use libipld::Ipld;

verus! {

/// The tree of values of `libipld`. Nothing is known here of what one
/// holds: it is made and taken apart only on the way to and from the codec.
#[verifier::external_type_specification]
#[verifier::external_body]
pub struct ExIpld(libipld::Ipld);

/// The DAG-CBOR bytes of an encodable value.
pub uninterp spec fn dag_cbor(v: ValueView) -> Seq<u8>;

/// The value that DAG-CBOR bytes hold, where they hold one.
pub uninterp spec fn dag_cbor_value(bytes: Seq<u8>) -> Option<ValueView>;

/// The same tree as a value of `libipld`, or the words of `multihash` or of
/// `cid` on the first link that is no valid identifier.
#[verifier::external_body]
fn lower(v: &Value) -> Result<Ipld, String> {
    Ok(match v {
        Value::Null => Ipld::Null,
        Value::Bool(b) => Ipld::Bool(*b),
        Value::Integer(i) => Ipld::Integer(*i),
        Value::String(s) => Ipld::String(s.clone()),
        Value::Bytes(b) => Ipld::Bytes(b.clone()),
        Value::List(xs) => Ipld::List(xs.iter().map(lower).collect::<Result<_, _>>()?),
        Value::StringMap(m) => Ipld::StringMap(
            m.iter().map(|e| Ok((e.0.clone(), lower(&e.1)?))).collect::<Result<_, String>>()?,
        ),
        Value::Link(c) => lower_link(c)?,
    })
}

/// The link of `libipld` to the identifier that `cid::Cid::new` makes of the
/// three parts of `c`.
#[verifier::external_body]
fn lower_link(c: &Cid) -> Result<Ipld, String> {
    let hash = multihash::Multihash::wrap(c.hash.code, &c.hash.digest);
    let version = match c.version {
        Version::V0 => cid::Version::V0,
        Version::V1 => cid::Version::V1,
    };
    let link = cid::Cid::new(version, c.codec, hash.map_err(|e| format!("{:?}", e))?);
    Ok(Ipld::Link(link.map_err(|e| format!("{:?}", e))?))
}

/// `DagCborCodec.encode` of `libipld`, on the same tree. The maps of
/// `libipld` hold their entries by ascending key, one for each key: on a
/// value whose maps hold their keys in strictly ascending order, the tree
/// holds the same entries in the same order. The encoder fails on an
/// integer that does not fit in 64 bits and a sign, and on nothing else
/// that a tree of `libipld` can hold.
#[verifier::external_body]
pub(crate) fn dag_cbor_encode(v: &Value) -> (out: Result<Vec<u8>, String>)
    requires
        v@.ordered(),
    ensures
        out is Ok <==> v@.encodable(),
        out matches Ok(bytes) ==> bytes@ == dag_cbor(v@),
{
    DagCborCodec.encode(&lower(v)?).map_err(|e| format!("{:?}", e))
}

/// The same tree as a value of this library, or nothing where it holds a
/// floating-point number, which this library does not model.
#[verifier::external_body]
fn raise(v: &Ipld) -> Option<Value> {
    Some(match v {
        Ipld::Null => Value::Null,
        Ipld::Bool(b) => Value::Bool(*b),
        Ipld::Integer(i) => Value::Integer(*i),
        Ipld::Float(_) => return None,
        Ipld::String(s) => Value::String(s.clone()),
        Ipld::Bytes(b) => Value::Bytes(b.clone()),
        Ipld::List(xs) => Value::List(xs.iter().map(raise).collect::<Option<_>>()?),
        Ipld::StringMap(m) => Value::StringMap(
            m.iter().map(|e| Some((e.0.clone(), raise(e.1)?))).collect::<Option<_>>()?,
        ),
        Ipld::Link(_) => Value::Link(raise_link(v)?),
    })
}

/// The three parts of the identifier that a link of `libipld` holds.
#[verifier::external_body]
fn raise_link(v: &Ipld) -> Option<Cid> {
    let Ipld::Link(c) = v else { return None };
    let version = match c.version() {
        cid::Version::V0 => Version::V0,
        cid::Version::V1 => Version::V1,
    };
    let hash = Multihash { code: c.hash().code(), digest: c.hash().digest().to_vec() };
    Some(Cid { version, codec: c.codec(), hash })
}

/// `DagCborCodec.decode` of `libipld`, as a tree of this library: the value
/// that the bytes hold, or the words of `libipld` on why they hold none, or
/// the tree of `libipld` that holds a floating-point number. `libipld`
/// reserves what a string, bytes or a list declare before it reads them,
/// and fails outright on a length that no memory can hold: that is left
/// out here, where no length declares more than the bytes behind it. What
/// it reserves and how deep it nests then grow with the bytes alone, as
/// they do for every function that builds a tree from them.
#[verifier::external_body]
pub(crate) fn dag_cbor_decode(bytes: &Vec<u8>) -> (out: Result<Value, String>)
    requires
        sized(bytes@),
    ensures
        out matches Ok(v) ==> dag_cbor_value(bytes@) == Some(v@),
        out is Err ==> dag_cbor_value(bytes@) is None,
{
    let tree: Ipld = DagCborCodec.decode(bytes).map_err(|e| format!("{}", e))?;
    raise(&tree).ok_or_else(|| format!("{:?}", tree))
}

/// The identifier of a block: version 1, DAG-CBOR, BLAKE2b-256 of the bytes.
pub open spec fn block_cid(bytes: Seq<u8>) -> CidView {
    CidView {
        version: Version::V1,
        codec: DAG_CBOR,
        hash: MultihashView { code: BLAKE2B_256, digest: blake2b_256(bytes) },
    }
}

/// The identifier of the block of a value depends on the value alone: two
/// values with the same view, however they were built, have the same
/// identifier.
pub proof fn lemma_cid_stable(a: Value, b: Value)
    requires
        a@ == b@,
    ensures
        block_cid(dag_cbor(a@)) == block_cid(dag_cbor(b@)),
{
}

/// The DAG-CBOR bytes of `v`, or why it has none. A value in which a map
/// holds its keys out of order, or one of them twice, has none.
pub fn encode(v: &Value) -> (out: Result<Vec<u8>, String>)
    ensures
        out is Ok <==> v@.encodable(),
        out matches Ok(bytes) ==> bytes@ == dag_cbor(v@),
        !v@.ordered() ==> (out matches Err(why) && why@ == "map keys out of order"@),
{
    if !v.is_ordered() {
        proof {
            if v@.encodable() {
                lemma_encodable_ordered(v@);
            }
        }
        return Err(text("map keys out of order"));
    }
    dag_cbor_encode(v)
}

/// The value that the bytes of a block hold, or why they hold none. Bytes
/// that declare a length beyond their end hold none.
pub fn decode(bytes: &Vec<u8>) -> (out: Result<Value, String>)
    ensures
        out is Ok <==> sized(bytes@) && dag_cbor_value(bytes@) is Some,
        out matches Ok(v) ==> dag_cbor_value(bytes@) == Some(v@),
        !sized(bytes@) ==> (out matches Err(why) && why@ == "length out of range"@),
{
    if !is_sized(bytes) {
        return Err(text("length out of range"));
    }
    dag_cbor_decode(bytes)
}

/// The identifier of the block that holds `v`.
pub fn cid(v: &Value) -> (c: Cid)
    requires
        v@.encodable(),
    ensures
        c@ == block_cid(dag_cbor(v@)),
        c@.valid(),
        c@.hash.digest.len() == 32,
{
    proof {
        lemma_encodable_ordered(v@);
    }
    match dag_cbor_encode(v) {
        Ok(bytes) => Cid::new_v1(DAG_CBOR, blake2b_256_hash(&bytes)),
        Err(_) => vstd::pervasive::unreached(),
    }
}

} // verus!
