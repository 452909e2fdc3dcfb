//! The frames that a client sends to a peer, and how the peer reads them.
//!
//! A STORE frame is a big-endian `u32`, as many bytes of metadata, and the shard up to the
//! end of the stream. A GET frame is `GET:`, a shard identifier and a line feed; a PING
//! frame is `PING:`, a shard identifier and a line feed. The peer tells them apart by the
//! first four bytes.

use vstd::prelude::*;
use vstd::utf8::{
    decode_utf8, encode_utf8, encode_utf8_decode_utf8, encode_utf8_valid_utf8, is_ascii_chars,
    is_ascii_chars_encode_utf8, valid_utf8,
};
use crate::bytes::{append_bytes, copy_range};
use crate::error::StoreError;
use crate::ids::{fresh_id, is_hyphenated_uuid, lemma_uuid_bytes};
use crate::params::ID_LEN;
use crate::text::{is_space_in, space_in, string_from_utf8, trim_in, trimmed_in};

verus! {

/// What the first four bytes of a frame announce.
#[derive(Clone, Copy, Debug, PartialEq, Eq, Structural)]
pub enum FrameKind {
    /// A health probe for a shard.
    Ping,
    /// A request for a shard.
    Get,
    /// A shard to store, after `meta_len` bytes of metadata.
    Store { meta_len: u32 },
}

/// A frame as the peer understands it.
#[derive(Clone, Debug, PartialEq, Eq)]
pub enum Request {
    /// Store `payload`, described by `metadata`.
    Store { metadata: Vec<u8>, payload: Vec<u8> },
    /// Send the shard with this identifier.
    Get { shard_id: Vec<u8> },
    /// Say whether the shard with this identifier is held.
    Ping { shard_id: Vec<u8> },
}

/// The mathematical content of a `Request`.
pub enum Frame {
    Store { metadata: Seq<u8>, payload: Seq<u8> },
    Get { shard_id: Seq<u8> },
    Ping { shard_id: Seq<u8> },
}

impl View for Request {
    type V = Frame;

    open spec fn view(&self) -> Frame {
        match self {
            Request::Store { metadata, payload } => Frame::Store {
                metadata: metadata@,
                payload: payload@,
            },
            Request::Get { shard_id } => Frame::Get { shard_id: shard_id@ },
            Request::Ping { shard_id } => Frame::Ping { shard_id: shard_id@ },
        }
    }
}

/// The bytes `PING`.
pub open spec fn is_ping_header(header: Seq<u8>) -> bool {
    header.len() >= 4 && header[0] == 80 && header[1] == 73 && header[2] == 78 && header[3] == 71
}

/// The bytes `GET`, followed by any fourth byte.
pub open spec fn is_get_header(header: Seq<u8>) -> bool {
    header.len() >= 4 && header[0] == 71 && header[1] == 69 && header[2] == 84
}

/// The number that four bytes spell in big-endian order.
pub open spec fn be32(header: Seq<u8>) -> int {
    header[0] * 0x100_0000 + header[1] * 0x1_0000 + header[2] * 0x100 + header[3]
}

/// The four bytes that spell `value` in big-endian order.
pub open spec fn be32_bytes(value: int) -> Seq<u8> {
    seq![
        (value / 0x100_0000) as u8,
        ((value / 0x1_0000) % 0x100) as u8,
        ((value / 0x100) % 0x100) as u8,
        (value % 0x100) as u8,
    ]
}

/// What a header of four bytes announces: `PING` is a probe, `GET` and one more byte a
/// request, and anything else the metadata length of a STORE.
pub open spec fn header_kind(header: Seq<u8>) -> FrameKind {
    if is_ping_header(header) {
        FrameKind::Ping
    } else if is_get_header(header) {
        FrameKind::Get
    } else {
        FrameKind::Store { meta_len: be32(header) as u32 }
    }
}

/// The byte that ends a shard identifier on the wire: the line feed.
pub open spec fn is_line_end(byte: u8) -> bool {
    byte == 10
}

/// Number of bytes before the first line end, or before the end of the bytes.
pub open spec fn line_len(bytes: Seq<u8>) -> nat
    decreases bytes.len(),
{
    if bytes.len() == 0 || is_line_end(bytes[0]) {
        0
    } else {
        1 + line_len(bytes.drop_first())
    }
}

/// White space around an identifier on the wire: tab, line feed, vertical tab, form feed,
/// carriage return, space, next line and no-break space.
pub open spec fn is_space(byte: u8) -> bool {
    is_space_in(byte, true)
}

/// `bytes` without the white space at either end.
pub open spec fn trimmed(bytes: Seq<u8>) -> Seq<u8> {
    trimmed_in(bytes, true)
}

/// The identifier that a GET or PING frame carries after its separator: the bytes up to
/// the first line end, without the white space around them.
pub open spec fn line_id(rest: Seq<u8>) -> Seq<u8> {
    trimmed(rest.take(line_len(rest) as int))
}

/// How the peer reads a frame; `None` where the frame is malformed: shorter than its
/// header, a probe without its separator, or a STORE with less metadata than announced.
pub open spec fn parsed(bytes: Seq<u8>) -> Option<Frame> {
    if bytes.len() < 4 {
        None
    } else {
        let rest = bytes.skip(4);
        match header_kind(bytes.take(4)) {
            FrameKind::Ping => if rest.len() == 0 {
                None
            } else {
                Some(Frame::Ping { shard_id: line_id(rest.skip(1)) })
            },
            FrameKind::Get => Some(Frame::Get { shard_id: line_id(rest) }),
            FrameKind::Store { meta_len } => if rest.len() < meta_len {
                None
            } else {
                Some(
                    Frame::Store {
                        metadata: rest.take(meta_len as int),
                        payload: rest.skip(meta_len as int),
                    },
                )
            },
        }
    }
}

/// Tells what the first four bytes of a frame announce; `None` if there are fewer.
pub fn classify_header(header: &[u8]) -> (kind: Option<FrameKind>)
    ensures
        header@.len() < 4 ==> kind is None,
        header@.len() >= 4 ==> kind == Some(header_kind(header@.take(4))),
{
    if header.len() < 4 {
        return None;
    }
    let b0: u8 = header[0];
    let b1: u8 = header[1];
    let b2: u8 = header[2];
    let b3: u8 = header[3];
    if b0 == 80 && b1 == 73 && b2 == 78 && b3 == 71 {
        Some(FrameKind::Ping)
    } else if b0 == 71 && b1 == 69 && b2 == 84 {
        Some(FrameKind::Get)
    } else {
        let high: u32 = (b0 as u32) * 0x100_0000 + (b1 as u32) * 0x1_0000;
        let low: u32 = (b2 as u32) * 0x100 + (b3 as u32);
        Some(FrameKind::Store { meta_len: high + low })
    }
}

/// Tells whether a byte ends a shard identifier on the wire.
pub fn ends_line(byte: u8) -> (yes: bool)
    ensures
        yes == is_line_end(byte),
{
    byte == 10
}

/// Tells whether a byte is white space on the wire.
pub fn space(byte: u8) -> (yes: bool)
    ensures
        yes == is_space(byte),
{
    space_in(byte, true)
}

/// Removes the white space at both ends of an identifier off the wire.
pub fn trim(bytes: &[u8]) -> (out: Vec<u8>)
    ensures
        out@ == trimmed(bytes@),
{
    trim_in(bytes, true)
}

/// Counts the bytes before the first line end.
pub fn line_length(bytes: &[u8]) -> (len: usize)
    ensures
        len == line_len(bytes@),
        len <= bytes@.len(),
{
    let mut len: usize = 0;
    assert(bytes@.skip(0) =~= bytes@);
    while len < bytes.len() && !ends_line(bytes[len])
        invariant
            len <= bytes@.len(),
            line_len(bytes@) == len + line_len(bytes@.skip(len as int)),
        decreases bytes@.len() - len,
    {
        proof {
            let tail = bytes@.skip(len as int);
            assert(tail.drop_first() =~= bytes@.skip(len + 1));
        }
        len = len + 1;
    }
    proof {
        let tail = bytes@.skip(len as int);
        if len < bytes@.len() {
            assert(tail[0] == bytes@[len as int]);
        }
    }
    len
}

/// Reads the shard identifier that follows the separator of a GET or PING frame.
pub fn read_line_id(rest: &[u8]) -> (id: Vec<u8>)
    ensures
        id@ == line_id(rest@),
{
    let len: usize = line_length(rest);
    let line = copy_range(rest, 0, len);
    trim(line.as_slice())
}

/// Reads a frame as the peer does; `None` where it is malformed.
pub fn parse_frame(bytes: &[u8]) -> (res: Option<Request>)
    ensures
        match res {
            Some(request) => parsed(bytes@) == Some(request@),
            None => parsed(bytes@) is None,
        },
{
    let kind = match classify_header(bytes) {
        Some(kind) => kind,
        None => {
            return None;
        },
    };
    let rest = copy_range(bytes, 4, bytes.len());
    match kind {
        FrameKind::Ping => {
            if rest.len() == 0 {
                return None;
            }
            let line = copy_range(rest.as_slice(), 1, rest.len());
            Some(Request::Ping { shard_id: read_line_id(line.as_slice()) })
        },
        FrameKind::Get => Some(Request::Get { shard_id: read_line_id(rest.as_slice()) }),
        FrameKind::Store { meta_len } => {
            let meta_len: usize = meta_len as usize;
            if rest.len() < meta_len {
                return None;
            }
            let metadata = copy_range(rest.as_slice(), 0, meta_len);
            let payload = copy_range(rest.as_slice(), meta_len, rest.len());
            assert(metadata@ =~= rest@.take(meta_len as int));
            Some(Request::Store { metadata, payload })
        },
    }
}

/// What the peer is to read next off a connection.
#[derive(Clone, Copy, Debug, PartialEq, Eq, Structural)]
pub enum Read {
    /// One more byte.
    Byte,
    /// Everything up to the end of the stream.
    Rest,
    /// Nothing: the frame is complete.
    Nothing,
}

/// What is to be read after the bytes read so far: the header byte by byte; after the
/// header of a STORE the rest of the stream; after that of a GET, and after that of a PING
/// and its separator, byte by byte up to the first line end.
pub open spec fn read_due(frame: Seq<u8>) -> Read {
    if frame.len() < 4 {
        Read::Byte
    } else {
        match header_kind(frame.take(4)) {
            FrameKind::Store { .. } => Read::Rest,
            FrameKind::Get => if frame.len() > 4 && is_line_end(frame.last()) {
                Read::Nothing
            } else {
                Read::Byte
            },
            FrameKind::Ping => if frame.len() > 5 && is_line_end(frame.last()) {
                Read::Nothing
            } else {
                Read::Byte
            },
        }
    }
}

/// Says what the peer is to read next, after the bytes that it has read so far.
pub fn next_read(frame: &[u8]) -> (read: Read)
    ensures
        read == read_due(frame@),
{
    match classify_header(frame) {
        None => Read::Byte,
        Some(FrameKind::Store { meta_len }) => Read::Rest,
        Some(FrameKind::Get) => if frame.len() > 4 && ends_line(frame[frame.len() - 1]) {
            Read::Nothing
        } else {
            Read::Byte
        },
        Some(FrameKind::Ping) => if frame.len() > 5 && ends_line(frame[frame.len() - 1]) {
            Read::Nothing
        } else {
            Read::Byte
        },
    }
}

/// A peer that reads as `read_due` says has read enough: where it stops at the first point
/// at which nothing is due, it understands the bytes read as it would the whole stream.
pub proof fn lemma_reading_suffices(stream: Seq<u8>, len: int)
    requires
        0 <= len <= stream.len(),
        read_due(stream.take(len)) == Read::Nothing,
        forall|k: int| 0 <= k < len ==> read_due(#[trigger] stream.take(k)) == Read::Byte,
    ensures
        parsed(stream.take(len)) == parsed(stream),
{
    let frame = stream.take(len);
    assert(frame.take(4) =~= stream.take(4));
    let start: int = if header_kind(frame.take(4)) == FrameKind::Get {
        4
    } else {
        5
    };
    assert(len > start);
    let id = stream.subrange(start, len - 1);
    assert forall|i: int| 0 <= i < id.len() implies !is_line_end(#[trigger] id[i]) by {
        let k = start + i + 1;
        assert(stream.take(k).take(4) =~= stream.take(4));
        assert(read_due(stream.take(k)) == Read::Byte);
        assert(stream.take(k).last() == id[i]);
    }
    assert(frame.last() == stream[len - 1]);
    lemma_line_len_of_clean(id, stream.skip(len - 1));
    lemma_line_len_of_clean(id, frame.skip(len - 1));
    assert(stream.skip(start) =~= id + stream.skip(len - 1));
    assert(frame.skip(start) =~= id + frame.skip(len - 1));
    assert(stream.skip(start).take(id.len() as int) =~= id);
    assert(frame.skip(start).take(id.len() as int) =~= id);
    assert(stream.skip(4).skip(1) =~= stream.skip(5));
    assert(frame.skip(4).skip(1) =~= frame.skip(5));
}

/// The GET frame for a shard identifier: `GET:`, the identifier, a line feed.
pub open spec fn get_frame(shard_id: Seq<u8>) -> Seq<u8> {
    seq![71u8, 69, 84, 58] + shard_id + seq![10u8]
}

/// The PING frame for a shard identifier: `PING:`, the identifier, a line feed.
pub open spec fn ping_frame(shard_id: Seq<u8>) -> Seq<u8> {
    seq![80u8, 73, 78, 71, 58] + shard_id + seq![10u8]
}

/// The STORE frame for a shard and its metadata: the metadata's length in four
/// big-endian bytes, the metadata, the shard.
pub open spec fn store_frame(metadata: Seq<u8>, payload: Seq<u8>) -> Seq<u8> {
    be32_bytes(metadata.len() as int) + metadata + payload
}

/// The metadata lengths whose four bytes read `PING`, or `GET` and one more byte: a STORE
/// frame with such a length would be taken for a probe or a request.
pub open spec fn header_collides(meta_len: nat) -> bool {
    meta_len == 0x5049_4E47 || 0x4745_5400 <= meta_len <= 0x4745_54FF
}

/// The STORE frames that can be built: the metadata length fits four bytes and does not
/// collide with the other headers, and the frame fits into memory.
pub open spec fn store_frame_fits(meta_len: nat, payload_len: nat) -> bool {
    &&& meta_len <= u32::MAX
    &&& !header_collides(meta_len)
    &&& 4 + meta_len + payload_len <= usize::MAX
}

/// An identifier that survives the wire unchanged: no line end in it, no white space at
/// its ends.
pub open spec fn is_clean_id(id: Seq<u8>) -> bool {
    &&& forall|i: int| 0 <= i < id.len() ==> !is_line_end(#[trigger] id[i])
    &&& id.len() > 0 ==> !is_space(id[0]) && !is_space(id.last())
}

/// Builds the GET frame for a shard identifier.
pub fn encode_get(shard_id: &str) -> (frame: Vec<u8>)
    ensures
        frame@ == get_frame(encode_utf8(shard_id@)),
{
    let mut frame: Vec<u8> = Vec::new();
    frame.push(71);
    frame.push(69);
    frame.push(84);
    frame.push(58);
    append_bytes(&mut frame, shard_id.as_bytes());
    frame.push(10);
    frame
}

/// Builds the PING frame for a shard identifier.
pub fn encode_ping(shard_id: &str) -> (frame: Vec<u8>)
    ensures
        frame@ == ping_frame(encode_utf8(shard_id@)),
{
    let mut frame: Vec<u8> = Vec::new();
    frame.push(80);
    frame.push(73);
    frame.push(78);
    frame.push(71);
    frame.push(58);
    append_bytes(&mut frame, shard_id.as_bytes());
    frame.push(10);
    frame
}

/// Tells whether a metadata length would make a STORE frame look like another frame.
pub fn collides(meta_len: usize) -> (yes: bool)
    ensures
        yes == header_collides(meta_len as nat),
{
    meta_len == 0x5049_4E47 || (0x4745_5400 <= meta_len && meta_len <= 0x4745_54FF)
}

/// Builds the STORE frame for a shard and its serialised metadata; `None` where no such
/// frame can be built.
pub fn encode_store(metadata: &[u8], payload: &[u8]) -> (res: Option<Vec<u8>>)
    ensures
        res is Some <==> store_frame_fits(metadata@.len(), payload@.len()),
        res matches Some(frame) ==> frame@ == store_frame(metadata@, payload@),
{
    let meta_len: usize = metadata.len();
    if meta_len > 0xffff_ffff || collides(meta_len) {
        return None;
    }
    if meta_len > usize::MAX - 4 || payload.len() > usize::MAX - 4 - meta_len {
        return None;
    }
    let mut frame: Vec<u8> = Vec::new();
    frame.push((meta_len / 0x100_0000) as u8);
    frame.push(((meta_len / 0x1_0000) % 0x100) as u8);
    frame.push(((meta_len / 0x100) % 0x100) as u8);
    frame.push((meta_len % 0x100) as u8);
    append_bytes(&mut frame, metadata);
    append_bytes(&mut frame, payload);
    Some(frame)
}

/// A line without line ends, followed by a line end, has the length of the line.
proof fn lemma_line_len_of_clean(id: Seq<u8>, tail: Seq<u8>)
    requires
        forall|i: int| 0 <= i < id.len() ==> !is_line_end(#[trigger] id[i]),
        tail.len() > 0,
        is_line_end(tail[0]),
    ensures
        line_len(id + tail) == id.len(),
    decreases id.len(),
{
    let whole = id + tail;
    if id.len() == 0 {
        assert(whole[0] == tail[0]);
    } else {
        assert(whole[0] == id[0]);
        let rest = id.drop_first();
        assert forall|i: int| 0 <= i < rest.len() implies !is_line_end(#[trigger] rest[i]) by {
            assert(rest[i] == id[i + 1]);
        }
        lemma_line_len_of_clean(rest, tail);
        assert(whole.drop_first() =~= rest + tail);
    }
}

/// The peer reads a clean identifier, followed by a line feed, as that identifier.
proof fn lemma_line_id_of_clean(id: Seq<u8>)
    requires
        is_clean_id(id),
    ensures
        line_id(id + seq![10u8]) == id,
{
    let rest = id + seq![10u8];
    lemma_line_len_of_clean(id, seq![10u8]);
    assert(rest.take(id.len() as int) =~= id);
}

/// The peer reads the GET frame of a clean identifier as a request for that identifier.
pub proof fn lemma_get_frame_parses(shard_id: Seq<u8>)
    requires
        is_clean_id(shard_id),
    ensures
        parsed(get_frame(shard_id)) == Some(Frame::Get { shard_id }),
{
    let frame = get_frame(shard_id);
    assert(frame.take(4) =~= seq![71u8, 69, 84, 58]);
    assert(frame.skip(4) =~= shard_id + seq![10u8]);
    lemma_line_id_of_clean(shard_id);
}

/// The peer reads the PING frame of a clean identifier as a probe for that identifier.
pub proof fn lemma_ping_frame_parses(shard_id: Seq<u8>)
    requires
        is_clean_id(shard_id),
    ensures
        parsed(ping_frame(shard_id)) == Some(Frame::Ping { shard_id }),
{
    let frame = ping_frame(shard_id);
    assert(frame.take(4) =~= seq![80u8, 73, 78, 71]);
    assert(frame.skip(4).skip(1) =~= shard_id + seq![10u8]);
    lemma_line_id_of_clean(shard_id);
}

/// The peer reads every STORE frame that can be built as a STORE of the same metadata and
/// shard.
pub proof fn lemma_store_frame_parses(metadata: Seq<u8>, payload: Seq<u8>)
    requires
        store_frame_fits(metadata.len(), payload.len()),
    ensures
        parsed(store_frame(metadata, payload)) == Some(Frame::Store { metadata, payload }),
{
    let len = metadata.len() as int;
    let frame = store_frame(metadata, payload);
    let header = be32_bytes(len);
    assert(frame.take(4) =~= header);
    assert(frame.skip(4) =~= metadata + payload);
    assert(be32(header) == len);
    assert(!is_ping_header(header));
    assert(!is_get_header(header));
    assert((metadata + payload).take(len) =~= metadata);
    assert((metadata + payload).skip(len) =~= payload);
}

/// What a peer answers.
#[derive(Clone, Debug, PartialEq, Eq)]
pub enum Response {
    /// The identifier under which a shard was stored.
    ShardId(String),
    /// The bytes of a shard.
    Shard(Vec<u8>),
    /// The error token.
    Error,
    /// The probed shard is held.
    PongOk,
    /// The probed shard is not held.
    PongMissing,
}

/// The error token `ERR`.
pub open spec fn err_token() -> Seq<u8> {
    seq![69u8, 82, 82]
}

/// The line `PONG:OK`.
pub open spec fn pong_ok() -> Seq<u8> {
    seq![80u8, 79, 78, 71, 58, 79, 75, 10]
}

/// The line `PONG:MISSING`.
pub open spec fn pong_missing() -> Seq<u8> {
    seq![80u8, 79, 78, 71, 58, 77, 73, 83, 83, 73, 78, 71, 10]
}

impl Response {
    /// The bytes that go on the wire for an answer.
    pub open spec fn wire_bytes(&self) -> Seq<u8> {
        match self {
            Response::ShardId(id) => encode_utf8(id@),
            Response::Shard(bytes) => bytes@,
            Response::Error => err_token(),
            Response::PongOk => pong_ok(),
            Response::PongMissing => pong_missing(),
        }
    }

    /// Writes an answer out.
    pub fn to_bytes(&self) -> (bytes: Vec<u8>)
        ensures
            bytes@ == self.wire_bytes(),
    {
        let mut bytes: Vec<u8> = Vec::new();
        match self {
            Response::ShardId(id) => {
                append_bytes(&mut bytes, id.as_str().as_bytes());
            },
            Response::Shard(shard) => {
                append_bytes(&mut bytes, shard.as_slice());
            },
            Response::Error => {
                bytes.push(69);
                bytes.push(82);
                bytes.push(82);
            },
            Response::PongOk => {
                bytes.push(80);
                bytes.push(79);
                bytes.push(78);
                bytes.push(71);
                bytes.push(58);
                bytes.push(79);
                bytes.push(75);
                bytes.push(10);
            },
            Response::PongMissing => {
                bytes.push(80);
                bytes.push(79);
                bytes.push(78);
                bytes.push(71);
                bytes.push(58);
                bytes.push(77);
                bytes.push(73);
                bytes.push(83);
                bytes.push(83);
                bytes.push(73);
                bytes.push(78);
                bytes.push(71);
                bytes.push(10);
            },
        }
        bytes
    }
}

/// The form of a shard identifier on the wire: 36 bytes, each a hyphen or a lower-case
/// hexadecimal digit.
pub open spec fn is_shard_id_form(bytes: Seq<u8>) -> bool {
    &&& bytes.len() == 36
    &&& forall|i: int|
        0 <= i < 36 ==> {
            let byte = #[trigger] bytes[i];
            byte == 45 || (48 <= byte <= 57) || (97 <= byte <= 102)
        }
}

/// What a peer writes is one of five things: a shard identifier of 36 bytes, the bytes of a
/// shard, the error token, `PONG:OK` or `PONG:MISSING`.
pub proof fn lemma_reply_forms(reply: Response)
    requires
        reply matches Response::ShardId(id) ==> is_hyphenated_uuid(id@),
    ensures
        match reply {
            Response::ShardId(_) => is_shard_id_form(reply.wire_bytes()),
            Response::Shard(shard) => reply.wire_bytes() == shard@,
            Response::Error => reply.wire_bytes() == err_token(),
            Response::PongOk => reply.wire_bytes() == pong_ok(),
            Response::PongMissing => reply.wire_bytes() == pong_missing(),
        },
{
    if let Response::ShardId(id) = reply {
        lemma_uuid_bytes(id@);
    }
}

/// Tells whether a reply is the error token.
pub fn is_err_token(reply: &[u8]) -> (yes: bool)
    ensures
        yes == (reply@ == err_token()),
{
    let yes = reply.len() == 3 && reply[0] == 69 && reply[1] == 82 && reply[2] == 82;
    assert(yes ==> reply@ =~= err_token());
    yes
}

/// The peer's answer to a STORE: a fresh identifier for the shard where its metadata is
/// well-formed, else the error token. Which identifier is minted is not determined.
pub fn store_reply(metadata_valid: bool) -> (reply: Response)
    ensures
        metadata_valid ==> (reply matches Response::ShardId(id) && is_hyphenated_uuid(id@)),
        !metadata_valid ==> reply == Response::Error,
{
    if metadata_valid {
        Response::ShardId(fresh_id())
    } else {
        Response::Error
    }
}

/// The peer's answer to a malformed frame.
pub fn malformed_reply() -> (reply: Response)
    ensures
        reply == Response::Error,
{
    Response::Error
}

/// A fresh shard identifier goes over the wire as 36 bytes: the client reads it as that
/// identifier off the answer to a STORE, and the peer reads it back unchanged from a GET or
/// PING frame.
pub proof fn lemma_shard_id_on_wire(id: Seq<char>)
    requires
        is_hyphenated_uuid(id),
    ensures
        encode_utf8(id).len() == 36,
        is_clean_id(encode_utf8(id)),
        parsed(get_frame(encode_utf8(id))) == Some(Frame::Get { shard_id: encode_utf8(id) }),
        parsed(ping_frame(encode_utf8(id))) == Some(Frame::Ping { shard_id: encode_utf8(id) }),
        store_reply_outcome(encode_utf8(id)) == Ok::<Seq<char>, StoreError>(id),
{
    lemma_uuid_bytes(id);
    encode_utf8_decode_utf8(id);
    let bytes = encode_utf8(id);
    assert(is_clean_id(bytes)) by {
        assert forall|i: int| 0 <= i < bytes.len() implies !is_line_end(#[trigger] bytes[i]) by {
            let byte = bytes[i];
            assert(byte == 45 || (48 <= byte <= 57) || (97 <= byte <= 102));
        }
        let first = bytes[0];
        assert(first == 45 || (48 <= first <= 57) || (97 <= first <= 102));
        let last = bytes[35];
        assert(last == 45 || (48 <= last <= 57) || (97 <= last <= 102));
    }
    lemma_get_frame_parses(bytes);
    lemma_ping_frame_parses(bytes);
    assert(is_id_reply(bytes)) by {
        assert forall|i: int| 0 <= i < bytes.len() implies #[trigger] bytes[i] < 128 by {
            let byte = bytes[i];
            assert(byte == 45 || (48 <= byte <= 57) || (97 <= byte <= 102));
        }
    }
    lemma_ascii_bytes_are_text(bytes);
}

/// Bytes below 128 are text, each byte the character of its number.
proof fn lemma_ascii_bytes_are_text(bytes: Seq<u8>)
    requires
        forall|i: int| 0 <= i < bytes.len() ==> #[trigger] bytes[i] < 128,
    ensures
        valid_utf8(bytes),
        decode_utf8(bytes) == Seq::new(bytes.len(), |i: int| bytes[i] as char),
        encode_utf8(decode_utf8(bytes)) == bytes,
{
    let chars = Seq::new(bytes.len(), |i: int| bytes[i] as char);
    assert(is_ascii_chars(chars)) by {
        assert forall|i: int| 0 <= i < chars.len() implies '\0' <= #[trigger] chars[i]
            <= '\u{7f}' by {
            assert(bytes[i] < 128);
        }
    }
    is_ascii_chars_encode_utf8(chars);
    assert(encode_utf8(chars) =~= bytes) by {
        assert forall|i: int| 0 <= i < bytes.len() implies encode_utf8(chars)[i] == bytes[i] by {
            assert(bytes[i] < 128);
            assert(chars[i] as u8 == bytes[i]);
        }
    }
    encode_utf8_valid_utf8(chars);
    encode_utf8_decode_utf8(chars);
}

/// An answer that names a shard: 36 bytes of ASCII, whichever they are.
pub open spec fn is_id_reply(reply: Seq<u8>) -> bool {
    &&& reply.len() == ID_LEN
    &&& forall|i: int| 0 <= i < reply.len() ==> #[trigger] reply[i] < 128
}

/// Tells whether an answer names a shard.
pub fn names_shard(reply: &[u8]) -> (yes: bool)
    ensures
        yes == is_id_reply(reply@),
{
    if reply.len() != ID_LEN {
        return false;
    }
    let mut i: usize = 0;
    while i < ID_LEN
        invariant
            i <= ID_LEN,
            reply@.len() == ID_LEN,
            forall|k: int| 0 <= k < i ==> #[trigger] reply@[k] < 128,
        decreases ID_LEN - i,
    {
        if reply[i] >= 128 {
            return false;
        }
        i = i + 1;
    }
    true
}

/// What the client makes of the answer to a STORE: the shard identifier where the answer
/// is 36 bytes of ASCII, each byte a character of the identifier; an error of the remote
/// side for anything else, the error token, no answer and a shorter or longer one among
/// it. The identifier is opaque: which characters it is made of is the peer's affair.
pub open spec fn store_reply_outcome(reply: Seq<u8>) -> Result<Seq<char>, StoreError> {
    if is_id_reply(reply) {
        Ok(Seq::new(reply.len(), |i: int| reply[i] as char))
    } else {
        Err(StoreError::RemoteError)
    }
}

/// Reads the answer to a STORE: the shard identifier that the peer has minted.
///
/// Exactly 36 bytes of ASCII are an identifier; a part of one is none.
pub fn read_store_reply(reply: Vec<u8>) -> (res: Result<String, StoreError>)
    ensures
        match res {
            Ok(id) => store_reply_outcome(reply@) == Ok::<Seq<char>, StoreError>(id@),
            Err(e) => store_reply_outcome(reply@) == Err::<Seq<char>, StoreError>(e),
        },
        res matches Ok(id) ==> encode_utf8(id@) == reply@,
{
    if !names_shard(reply.as_slice()) {
        return Err(StoreError::RemoteError);
    }
    proof {
        lemma_ascii_bytes_are_text(reply@);
    }
    match string_from_utf8(reply) {
        Some(id) => Ok(id),
        None => Err(StoreError::RemoteError),
    }
}

/// The peer's answer to a GET: the shard if it holds one under the identifier, else the
/// error token.
pub fn get_reply(found: Option<Vec<u8>>) -> (reply: Response)
    ensures
        match found {
            Some(shard) => reply == Response::Shard(shard),
            None => reply == Response::Error,
        },
{
    match found {
        Some(shard) => Response::Shard(shard),
        None => Response::Error,
    }
}

/// The peer's answer to a PING.
pub fn ping_reply(held: bool) -> (reply: Response)
    ensures
        held ==> reply == Response::PongOk,
        !held ==> reply == Response::PongMissing,
{
    if held {
        Response::PongOk
    } else {
        Response::PongMissing
    }
}

/// What the client makes of the answer to a GET: the error token means that the peer does
/// not hold the shard; anything else is the shard.
pub fn read_get_reply(reply: Vec<u8>) -> (res: Result<Vec<u8>, StoreError>)
    ensures
        reply@ == err_token() ==> res == Err::<Vec<u8>, StoreError>(StoreError::ShardNotFound),
        reply@ != err_token() ==> res == Ok::<Vec<u8>, StoreError>(reply),
{
    if is_err_token(reply.as_slice()) {
        Err(StoreError::ShardNotFound)
    } else {
        Ok(reply)
    }
}

} // verus!
