//! The HTTP API of an IPFS daemon: what to ask it, and what to make of its
//! answers. The requests themselves are made elsewhere.

use vstd::prelude::*;
use crate::address::cid_text;
use crate::bytes::{join, same_text, text};
use crate::cbor::sized;
use crate::codec::{block_cid, cid, dag_cbor, dag_cbor_value, decode, encode};
use crate::ipld::Value;

verus! {

/// Where an IPFS daemon listens.
#[derive(Debug)]
pub struct IpfsApi {
    host: String,
}

impl View for IpfsApi {
    type V = Seq<char>;

    /// The address of the daemon.
    closed spec fn view(&self) -> Seq<char> {
        self.host@
    }
}

impl Clone for IpfsApi {
    fn clone(&self) -> (r: Self)
        ensures
            r@ == self@,
    {
        IpfsApi { host: self.host.clone() }
    }
}

/// The address at which a block is stored and pinned.
pub open spec fn put_url(host: Seq<char>) -> Seq<char> {
    host + "/api/v0/dag/put"@ + "?"@ + "format=cbor&pin=true&input-enc=cbor&hash=blake2b-256"@
}

/// The address at which the block of an identifier is fetched.
pub open spec fn get_url(host: Seq<char>, cid: Seq<char>) -> Seq<char> {
    host + "/api/v0/block/get"@ + "?arg="@ + cid
}

/// The complaint about a daemon that names a block otherwise than its bytes
/// do.
pub open spec fn different_cids(theirs: Seq<char>, ours: Seq<char>) -> Seq<char> {
    "CIDs are different "@ + theirs + " != "@ + ours
}

impl IpfsApi {
    /// The public daemon of the project.
    pub fn ipfs_yatima_io() -> (api: Self)
        ensures
            api@ == "http://ipfs.yatima.io:5001"@,
    {
        IpfsApi { host: text("http://ipfs.yatima.io:5001") }
    }

    /// The daemon on this machine.
    pub fn local_daemon() -> (api: Self)
        ensures
            api@ == "http://localhost:5001"@,
    {
        IpfsApi { host: text("http://localhost:5001") }
    }

    /// The address of the daemon.
    pub fn host(&self) -> (h: &str)
        ensures
            h@ == self@,
    {
        self.host.as_str()
    }

    /// The address to post a block to, to have it stored and pinned.
    pub fn dag_put_url(&self) -> (url: String)
        ensures
            url@ == put_url(self@),
    {
        let a: String = join(self.host.as_str(), "/api/v0/dag/put");
        let b: String = join(a.as_str(), "?");
        join(b.as_str(), "format=cbor&pin=true&input-enc=cbor&hash=blake2b-256")
    }

    /// The address to post to, to fetch the block of `cid`.
    pub fn dag_get_url(&self, cid: &str) -> (url: String)
        ensures
            url@ == get_url(self@, cid@),
    {
        let a: String = join(self.host.as_str(), "/api/v0/block/get");
        let b: String = join(a.as_str(), "?arg=");
        join(b.as_str(), cid)
    }

    /// The bytes to post for `dag`: its block, if it has one.
    pub fn dag_put_body(dag: &Value) -> (body: Result<Vec<u8>, String>)
        ensures
            body is Ok <==> dag@.encodable(),
            body matches Ok(bytes) ==> bytes@ == dag_cbor(dag@),
            body matches Err(why) ==> "encoding error: "@.is_prefix_of(why@),
    {
        match encode(dag) {
            Ok(bytes) => Ok(bytes),
            Err(e) => Err(join("encoding error: ", e.as_str())),
        }
    }

    /// What to make of the identifier that the daemon gave to the block of
    /// `dag`: it is accepted if it is the text of the identifier that the
    /// bytes have.
    pub fn dag_put_answer(dag: &Value, ipfs_cid: String) -> (out: Result<String, String>)
        requires
            dag@.encodable(),
        ensures
            out is Ok <==> ipfs_cid@ == cid_text(block_cid(dag_cbor(dag@))),
            out matches Ok(same) ==> same@ == ipfs_cid@,
            out matches Err(why) ==> why@ == different_cids(
                ipfs_cid@,
                cid_text(block_cid(dag_cbor(dag@))),
            ),
    {
        let local_cid: String = match cid(dag).to_text() {
            Some(t) => t,
            None => vstd::pervasive::unreached(),
        };
        if same_text(ipfs_cid.as_str(), local_cid.as_str()) {
            Ok(ipfs_cid)
        } else {
            let a: String = join("CIDs are different ", ipfs_cid.as_str());
            let b: String = join(a.as_str(), " != ");
            Err(join(b.as_str(), local_cid.as_str()))
        }
    }

    /// What to make of the bytes that the daemon sent for a block: the value
    /// that they hold, if they hold one.
    pub fn dag_get_answer(response: &Vec<u8>) -> (out: Result<Value, String>)
        ensures
            out is Ok <==> sized(response@) && dag_cbor_value(response@) is Some,
            out matches Ok(v) ==> dag_cbor_value(response@) == Some(v@),
            out matches Err(why) ==> "Invalid ipld cbor: "@.is_prefix_of(why@),
    {
        match decode(response) {
            Ok(v) => Ok(v),
            Err(e) => Err(join("Invalid ipld cbor: ", e.as_str())),
        }
    }
}

} // verus!
