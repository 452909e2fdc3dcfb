//! Peers: what is known of each, and how the peers that were found are put to use.

use vstd::prelude::*;
use vstd::string::StringExecFns;
use vstd::utf8::{decode_utf8, encode_utf8, valid_utf8};
use crate::bytes::copy_range;
use crate::node::{parse_port, port_of_text};
use crate::text::{decimal, push_decimal, string_from_utf8};

verus! {

/// A peer that was found on the network.
#[derive(Clone, Debug, PartialEq, Eq)]
pub struct Device {
    /// Stable identifier of the peer.
    pub device_id: String,
    /// What kind of device it is.
    pub device_type: String,
    /// Host at which it listens.
    pub address: String,
    /// Port at which it listens.
    pub port: u16,
}

/// `host:port`.
pub open spec fn endpoint_text(address: Seq<char>, port: u16) -> Seq<char> {
    address + seq![':'] + decimal(port as nat)
}

/// `host:port`, the form in which a peer's address is dialled and recorded.
pub fn endpoint(address: &str, port: u16) -> (text: String)
    ensures
        text@ == endpoint_text(address@, port),
{
    let mut text = String::from_str(address);
    proof {
        reveal_strlit(":");
    }
    text.append(":");
    push_decimal(&mut text, port as u64);
    text
}

/// The peer that takes the shard with index `shard_index` among `peer_count` peers: the
/// shards of a chunk go round the peers in the order of their indices.
pub open spec fn placement(shard_index: nat, peer_count: nat) -> nat {
    shard_index % peer_count
}

/// Computes `placement`.
pub fn placement_target(shard_index: usize, peer_count: usize) -> (target: usize)
    requires
        peer_count > 0,
    ensures
        target == placement(shard_index as nat, peer_count as nat),
        target < peer_count,
{
    shard_index % peer_count
}

/// Position of the last colon in a text; -1 where there is none.
pub open spec fn last_colon(text: Seq<u8>) -> int
    decreases text.len(),
{
    if text.len() == 0 {
        -1
    } else if text.last() == 58 {
        text.len() - 1
    } else {
        last_colon(text.drop_last())
    }
}

/// Host and port of an address of the form `host:port`: what stands before the last colon,
/// and the port that the rest spells.
pub open spec fn endpoint_parts(text: Seq<u8>) -> Option<(Seq<char>, u16)> {
    let colon = last_colon(text);
    if colon < 0 || !valid_utf8(text.take(colon)) {
        None
    } else {
        match port_of_text(text.skip(colon + 1)) {
            Some(port) => Some((decode_utf8(text.take(colon)), port)),
            None => None,
        }
    }
}

/// Finds the last colon of a text.
fn find_last_colon(text: &[u8]) -> (at: Option<usize>)
    ensures
        match at {
            Some(i) => last_colon(text@) == i && i < text@.len(),
            None => last_colon(text@) == -1,
        },
{
    let mut end: usize = text.len();
    assert(text@.take(end as int) =~= text@);
    while end > 0
        invariant
            end <= text@.len(),
            last_colon(text@) == last_colon(text@.take(end as int)),
        decreases end,
    {
        let ghost upto = text@.take(end as int);
        assert(upto.drop_last() =~= text@.take(end - 1));
        if text[end - 1] == 58 {
            return Some(end - 1);
        }
        end = end - 1;
    }
    None
}

/// Splits an address of the form `host:port`; `None` where it has no such form.
pub fn split_endpoint(text: &str) -> (res: Option<(String, u16)>)
    ensures
        match res {
            Some((host, port)) => endpoint_parts(encode_utf8(text@)) == Some((host@, port)),
            None => endpoint_parts(encode_utf8(text@)) is None,
        },
{
    let bytes = text.as_bytes();
    let colon: usize = match find_last_colon(bytes) {
        Some(at) => at,
        None => {
            return None;
        },
    };
    let total: usize = bytes.len();
    let head = copy_range(bytes, 0, colon);
    let tail = copy_range(bytes, colon + 1, total);
    let host = match string_from_utf8(head) {
        Some(host) => host,
        None => {
            return None;
        },
    };
    match parse_port(tail.as_slice()) {
        Some(port) => Some((host, port)),
        None => None,
    }
}

/// The peer behind an entry of the coordinator's directory: one that is online and whose
/// address has the form `host:port`.
pub fn device_from_directory(device_id: String, address: &str, online: bool) -> (res: Option<
    Device,
>)
    ensures
        res is Some <==> online && endpoint_parts(encode_utf8(address@)) is Some,
        res matches Some(device) ==> {
            &&& device.device_id == device_id
            &&& device.device_type@ == "agent"@
            &&& endpoint_parts(encode_utf8(address@)) == Some((device.address@, device.port))
        },
{
    if !online {
        return None;
    }
    match split_endpoint(address) {
        Some((host, port)) => Some(
            Device { device_id, device_type: String::from_str("agent"), address: host, port },
        ),
        None => None,
    }
}

impl Device {
    /// The address at which the peer is dialled.
    pub fn endpoint(&self) -> (text: String)
        ensures
            text@ == endpoint_text(self.address@, self.port),
    {
        endpoint(self.address.as_str(), self.port)
    }
}

} // verus!
