//! What a node is configured with and where it keeps its state: the listen port, and the
//! names of the key file, the device-identifier file and the data directories.

use vstd::prelude::*;
use vstd::string::{StrSliceExecFns, StringExecFns};
use crate::error::StoreError;
use crate::ids::{fresh_id, is_hyphenated_uuid};
use crate::peer::{endpoint, endpoint_text, Device};
use crate::text::{
    decimal, lemma_decimal_injective, push_decimal, string_from_utf8, trim_ascii, trimmed_ascii,
};
use vstd::utf8::{decode_utf8, valid_utf8};

verus! {

/// The port at which a node listens where none is configured.
pub const DEFAULT_PORT: u16 = 9000;

/// The number that a sequence of decimal digits spells; `None` where a byte is no digit.
pub open spec fn digits_value(digits: Seq<u8>) -> Option<nat>
    decreases digits.len(),
{
    if digits.len() == 0 {
        Some(0)
    } else {
        match digits_value(digits.drop_last()) {
            Some(value) => if 48 <= digits.last() <= 57 {
                Some(value * 10 + (digits.last() - 48) as nat)
            } else {
                None
            },
            None => None,
        }
    }
}

/// The port that a text spells: decimal digits, at least one, after an optional plus
/// sign, with a value below 65536.
pub open spec fn port_of_text(text: Seq<u8>) -> Option<u16> {
    let digits = if text.len() > 0 && text[0] == 43 {
        text.drop_first()
    } else {
        text
    };
    if digits.len() == 0 {
        None
    } else {
        match digits_value(digits) {
            Some(value) => if value <= u16::MAX {
                Some(value as u16)
            } else {
                None
            },
            None => None,
        }
    }
}

/// The listen port that a configured value gives: the default where nothing is
/// configured, else the port that the value spells.
pub open spec fn listen_port(configured: Option<Seq<u8>>) -> Result<u16, StoreError> {
    match configured {
        None => Ok(DEFAULT_PORT),
        Some(text) => match port_of_text(text) {
            Some(port) => Ok(port),
            None => Err(StoreError::UnparseablePort),
        },
    }
}

/// Reads a port from text.
pub fn parse_port(text: &[u8]) -> (res: Option<u16>)
    ensures
        res == port_of_text(text@),
{
    let start: usize = if text.len() > 0 && text[0] == 43 {
        1
    } else {
        0
    };
    if start >= text.len() {
        return None;
    }
    let ghost digits = if start == 1 {
        text@.drop_first()
    } else {
        text@
    };
    // The value so far, capped at 65536: digits only ever add to it.
    let mut value: u32 = 0;
    let mut i: usize = start;
    while i < text.len()
        invariant
            start <= i <= text@.len(),
            start < text@.len(),
            digits == text@.skip(start as int),
            digits == if text@.len() > 0 && text@[0] == 43 {
                text@.drop_first()
            } else {
                text@
            },
            value <= 65536,
            digits_value(digits.take(i - start)) matches Some(exact) && (value == if exact
                <= 65536 {
                exact
            } else {
                65536
            }),
        decreases text@.len() - i,
    {
        let byte: u8 = text[i];
        proof {
            let upto = digits.take(i - start + 1);
            assert(upto.drop_last() =~= digits.take(i - start));
            if !(48 <= byte <= 57) {
                lemma_digits_value_none(digits, i - start + 1);
            }
        }
        if byte < 48 || byte > 57 {
            return None;
        }
        let next: u32 = value * 10 + (byte - 48) as u32;
        value = if next > 65536 {
            65536
        } else {
            next
        };
        i = i + 1;
    }
    assert(digits.take(i - start) =~= digits);
    if value > 65535 {
        None
    } else {
        Some(value as u16)
    }
}

/// Digits with a prefix that spells no number spell no number.
proof fn lemma_digits_value_none(digits: Seq<u8>, upto: int)
    requires
        0 <= upto <= digits.len(),
        digits_value(digits.take(upto)) is None,
    ensures
        digits_value(digits) is None,
    decreases digits.len() - upto,
{
    if upto == digits.len() {
        assert(digits.take(upto) =~= digits);
    } else {
        assert(digits.take(upto + 1).drop_last() =~= digits.take(upto));
        lemma_digits_value_none(digits, upto + 1);
    }
}

/// The port at which the node listens, from what is configured for it.
pub fn parse_listen_port(configured: Option<&[u8]>) -> (res: Result<u16, StoreError>)
    ensures
        res == listen_port(
            match configured {
                Some(text) => Some(text@),
                None => None,
            },
        ),
{
    match configured {
        None => Ok(DEFAULT_PORT),
        Some(text) => match parse_port(text) {
            Some(port) => Ok(port),
            None => Err(StoreError::UnparseablePort),
        },
    }
}

/// `master_<port>.key`.
pub open spec fn key_file_text(port: u16) -> Seq<char> {
    "master_"@ + decimal(port as nat) + ".key"@
}

/// `device_id_<port>.txt`.
pub open spec fn device_id_file_text(port: u16) -> Seq<char> {
    "device_id_"@ + decimal(port as nat) + ".txt"@
}

/// `0.0.0.0:<port>`.
pub open spec fn listen_address_text(port: u16) -> Seq<char> {
    endpoint_text("0.0.0.0"@, port)
}

/// Name of the file that holds the master key of the node at `port`.
pub fn key_file_name(port: u16) -> (name: String)
    ensures
        name@ == key_file_text(port),
{
    let mut name = String::from_str("master_");
    push_decimal(&mut name, port as u64);
    name.append(".key");
    name
}

/// Name of the file that holds the device identifier of the node at `port`.
pub fn device_id_file_name(port: u16) -> (name: String)
    ensures
        name@ == device_id_file_text(port),
{
    let mut name = String::from_str("device_id_");
    push_decimal(&mut name, port as u64);
    name.append(".txt");
    name
}

/// The address at which the node at `port` accepts connections, on every interface.
pub fn listen_address(port: u16) -> (address: String)
    ensures
        address@ == listen_address_text(port),
{
    endpoint("0.0.0.0", port)
}

/// Text that differs only in the number between a common start and a common end differs
/// in the number.
proof fn lemma_framed_decimal_injective(start: Seq<char>, end: Seq<char>, a: nat, b: nat)
    requires
        start + decimal(a) + end == start + decimal(b) + end,
    ensures
        a == b,
{
    let left = start + decimal(a) + end;
    let right = start + decimal(b) + end;
    assert(left.len() == right.len());
    assert(decimal(a).len() == decimal(b).len());
    let from = start.len() as int;
    assert(decimal(a) =~= left.subrange(from, from + decimal(a).len()));
    assert(decimal(b) =~= right.subrange(from, from + decimal(b).len()));
    lemma_decimal_injective(a, b);
}

/// Two nodes that listen at different ports keep their master keys and their device
/// identifiers in different files.
pub proof fn lemma_ports_keep_apart(a: u16, b: u16)
    requires
        a != b,
    ensures
        key_file_text(a) != key_file_text(b),
        device_id_file_text(a) != device_id_file_text(b),
{
    if key_file_text(a) == key_file_text(b) {
        lemma_framed_decimal_injective("master_"@, ".key"@, a as nat, b as nat);
    }
    if device_id_file_text(a) == device_id_file_text(b) {
        lemma_framed_decimal_injective("device_id_"@, ".txt"@, a as nat, b as nat);
    }
}

/// The first eight characters of a device identifier, or all of it if it has fewer.
pub open spec fn short_id_text(device_id: Seq<char>) -> Seq<char> {
    if device_id.len() >= 8 {
        device_id.take(8)
    } else {
        device_id
    }
}

/// The short form of a device identifier, by which the data of a node is named.
pub fn short_id(device_id: &str) -> (short: String)
    ensures
        short@ == short_id_text(device_id@),
{
    if device_id.unicode_len() >= 8 {
        let short = String::from_str(device_id.substring_char(0, 8));
        short
    } else {
        String::from_str(device_id)
    }
}

/// `data_<short id>`.
pub open spec fn data_dir_text(device_id: Seq<char>) -> Seq<char> {
    "data_"@ + short_id_text(device_id)
}

/// Directory under which a node keeps its state.
pub fn data_dir(device_id: &str) -> (dir: String)
    ensures
        dir@ == data_dir_text(device_id@),
{
    let short = short_id(device_id);
    String::from_str("data_").concat(short.as_str())
}

/// Directory of the manifest store of a node: `db` under its data directory.
pub fn db_dir(device_id: &str) -> (dir: String)
    ensures
        dir@ == data_dir_text(device_id@) + "/db"@,
{
    data_dir(device_id).concat("/db")
}

/// Directory of the shard store of a node: `shards` under its data directory.
pub fn shards_dir(device_id: &str) -> (dir: String)
    ensures
        dir@ == data_dir_text(device_id@) + "/shards"@,
{
    data_dir(device_id).concat("/shards")
}

/// File of a shard in the shard store: its identifier, under the store's directory.
pub fn shard_path(shards_dir: &str, shard_id: &str) -> (path: String)
    ensures
        path@ == shards_dir@ + "/"@ + shard_id@,
{
    String::from_str(shards_dir).concat("/").concat(shard_id)
}

/// File of a shard's metadata in the shard store: beside the shard, with `.meta` added.
pub fn shard_meta_path(shards_dir: &str, shard_id: &str) -> (path: String)
    ensures
        path@ == shards_dir@ + "/"@ + shard_id@ + ".meta"@,
{
    shard_path(shards_dir, shard_id).concat(".meta")
}

/// The identifier under which the command line keeps its state: `cli_<port>`.
pub fn cli_id(port: u16) -> (id: String)
    ensures
        id@ == "cli_"@ + decimal(port as nat),
{
    let mut id = String::from_str("cli_");
    push_decimal(&mut id, port as u64);
    id
}

/// The device identifier that the contents of the identifier file give: the contents
/// without the ASCII white space around them, where that is text.
pub open spec fn stored_device_id(contents: Seq<u8>) -> Option<Seq<char>> {
    if valid_utf8(trimmed_ascii(contents)) {
        Some(decode_utf8(trimmed_ascii(contents)))
    } else {
        None
    }
}

/// The device identifier of a node, and whether it is new and has to be written to the
/// identifier file.
///
/// `stored` holds the contents of the identifier file, if there is one. Where it gives an
/// identifier, that is the node's; else a fresh one is minted.
pub fn device_id(stored: Option<&[u8]>) -> (res: (String, bool))
    ensures
        match stored {
            Some(contents) => match stored_device_id(contents@) {
                Some(id) => res.0@ == id && !res.1,
                None => is_hyphenated_uuid(res.0@) && res.1,
            },
            None => is_hyphenated_uuid(res.0@) && res.1,
        },
{
    match stored {
        Some(contents) => match string_from_utf8(trim_ascii(contents)) {
            Some(id) => (id, false),
            None => (fresh_id(), true),
        },
        None => (fresh_id(), true),
    }
}

/// The service type under which nodes advertise and browse on the local network.
pub fn service_type() -> (name: &'static str)
    ensures
        name@ == "_vishwarupa._tcp.local."@,
{
    "_vishwarupa._tcp.local."
}

/// The instance name under which a node advertises itself: `vishwarupa-<short id>`.
pub fn instance_name(device_id: &str) -> (name: String)
    ensures
        name@ == "vishwarupa-"@ + short_id_text(device_id@),
{
    let short = short_id(device_id);
    String::from_str("vishwarupa-").concat(short.as_str())
}

/// The host name under which a node advertises itself: its instance name and `.local.`.
pub fn host_name(device_id: &str) -> (name: String)
    ensures
        name@ == "vishwarupa-"@ + short_id_text(device_id@) + ".local."@,
{
    instance_name(device_id).concat(".local.")
}

/// The peer behind a service that was resolved on the local network: one with a device
/// identifier among its properties and at least one address, of which the first counts.
pub fn device_from_service(device_id: Option<String>, addresses: Vec<String>, port: u16) -> (res:
    Option<Device>)
    ensures
        res is Some <==> device_id is Some && addresses@.len() > 0,
        res matches Some(device) ==> {
            &&& device.device_id == device_id->0
            &&& device.device_type@ == "agent"@
            &&& device.address == addresses@[0]
            &&& device.port == port
        },
{
    let id = match device_id {
        Some(id) => id,
        None => {
            return None;
        },
    };
    if addresses.len() == 0 {
        return None;
    }
    let address = addresses[0].clone();
    Some(Device { device_id: id, device_type: String::from_str("agent"), address, port })
}

/// Whether the coordinator is to be asked for a manifest: only where the local store holds
/// none under the file's key. Every other error of the local store ends the download.
pub fn needs_coordinator(error: StoreError) -> (yes: bool)
    ensures
        yes == (error == StoreError::ManifestNotFound),
{
    match error {
        StoreError::ManifestNotFound => true,
        _ => false,
    }
}

/// Whether the coordinator's directory of devices is to be asked: only where the local
/// network gave no peer.
pub fn needs_directory(found: usize) -> (yes: bool)
    ensures
        yes == (found == 0),
{
    found == 0
}

} // verus!
