//! The frame layout: one tag byte, a four-byte big-endian payload length,
//! then the payload.

use vstd::prelude::*;
use vstd::slice::slice_subrange;

verus! {

/// Soft upper bound on the size of a key, in bytes.
pub const KEY_BYTE_LIMIT: u32 = 1024 * 1024;

/// Soft upper bound on the size of a value, in bytes.
pub const VALUE_BYTE_LIMIT: u32 = 1024 * 1024 * 10;

/// The largest payload length a frame may declare.
pub const PACKET_BYTE_LIMIT: u32 = 1024 * 1024 * 20;

/// Size of the buffer a reader hands to each read of the stream.
pub const PAYLOAD_CHUNK_SIZE: u32 = 1024;

/// Size of a frame's head: the tag and the length field.
pub const PAYLOAD_HEAD_SIZE: u32 = 5;

/// Payload bytes that fit in the first chunk behind the head.
pub const PAYLOAD_FIRST_MAX_VALUE_SIZE: u32 = PAYLOAD_CHUNK_SIZE - PAYLOAD_HEAD_SIZE;

pub const PING: u8 = 0x01;

pub const SET: u8 = 0x02;

pub const GET: u8 = 0x03;

pub const DELETE: u8 = 0x04;

pub const CLEAR: u8 = 0x05;

pub const PONG: u8 = 0xf1;

pub const SET_OK: u8 = 0xf2;

pub const GET_OK: u8 = 0xf3;

pub const DELETE_OK: u8 = 0xf4;

pub const CLEAR_OK: u8 = 0xf5;

pub const PACKET_INVALID: u8 = 0xfe;

pub const ERROR: u8 = 0xff;

/// The tags whose payload is declared empty.
pub const NO_VALUE_TAGS: [u8; 8] = [
    PING,
    CLEAR,
    PONG,
    SET_OK,
    DELETE_OK,
    CLEAR_OK,
    PACKET_INVALID,
    ERROR,
];

/// Whether the payload of `tag` is declared empty.
pub open spec fn is_no_value_tag(tag: u8) -> bool {
    tag == PING || tag == CLEAR || tag == PONG || tag == SET_OK || tag == DELETE_OK
        || tag == CLEAR_OK || tag == PACKET_INVALID || tag == ERROR
}

/// The four bytes of `n`, most significant first.
pub open spec fn be32(n: u32) -> Seq<u8> {
    seq![
        (n / 0x100_0000) as u8,
        ((n / 0x1_0000) % 0x100) as u8,
        ((n / 0x100) % 0x100) as u8,
        (n % 0x100) as u8,
    ]
}

/// The number that four bytes spell, most significant first.
pub open spec fn be32_value(b0: u8, b1: u8, b2: u8, b3: u8) -> u32 {
    (b0 * 0x100_0000 + b1 * 0x1_0000 + b2 * 0x100 + b3) as u32
}

/// Whether a frame may carry `payload`: no frame declares more than
/// `PACKET_BYTE_LIMIT` bytes.
pub open spec fn fits_frame(payload: Seq<u8>) -> bool {
    payload.len() <= PACKET_BYTE_LIMIT
}

/// A frame on the wire: the tag, the length of the payload and the payload.
pub open spec fn frame(tag: u8, payload: Seq<u8>) -> Seq<u8>
    recommends
        fits_frame(payload),
{
    seq![tag] + be32(payload.len() as u32) + payload
}

/// Whether `tag` is one whose payload is declared empty.
pub fn no_value_tag(tag: u8) -> (b: bool)
    ensures
        b == is_no_value_tag(tag),
{
    tag == PING || tag == CLEAR || tag == PONG || tag == SET_OK || tag == DELETE_OK
        || tag == CLEAR_OK || tag == PACKET_INVALID || tag == ERROR
}

/// Appends the four big-endian bytes of `n` to `out`.
pub fn push_be32(out: &mut Vec<u8>, n: u32)
    ensures
        final(out)@ == old(out)@ + be32(n),
{
    out.push((n / 0x100_0000) as u8);
    out.push(((n / 0x1_0000) % 0x100) as u8);
    out.push(((n / 0x100) % 0x100) as u8);
    out.push((n % 0x100) as u8);
}

/// Reads a big-endian number from four bytes.
pub fn read_be32(b0: u8, b1: u8, b2: u8, b3: u8) -> (n: u32)
    ensures
        n == be32_value(b0, b1, b2, b3),
{
    (b0 as u32) * 0x100_0000 + (b1 as u32) * 0x1_0000 + (b2 as u32) * 0x100 + (b3 as u32)
}

/// Frames `payload` under `packet_type`. The payload must be one that a
/// frame may carry.
pub fn generate_packet(packet_type: u8, payload: &[u8]) -> (packet: Vec<u8>)
    requires
        fits_frame(payload@),
    ensures
        packet@ == frame(packet_type, payload@),
{
    let mut packet: Vec<u8> = Vec::new();
    packet.push(packet_type);
    let length: u32 = payload.len() as u32;
    push_be32(&mut packet, length);
    packet.extend_from_slice(payload);
    packet
}

/// What the first bytes of a frame say: its tag, the payload length it
/// declares, and the payload bytes that came with them.
#[derive(Debug, Clone, Copy)]
pub struct StartPacket<'a> {
    pub tag: u8,
    pub length: u32,
    pub value: &'a [u8],
}

/// Why no frame could be read.
#[derive(Debug, Clone, Copy, PartialEq, Eq, Structural)]
pub enum PacketError {
    /// There were no bytes to take a tag from.
    EmptyTag,
    /// The stream failed.
    ReadFailed,
    /// The peer closed the stream before sending anything.
    NoDataReceived,
    /// The declared payload length is over `PACKET_BYTE_LIMIT`.
    OversizedFrame,
    /// The payload is not the record that the tag calls for.
    DecodeFailed,
}

/// The length that the head of `packet` declares.
pub open spec fn declared_length(packet: Seq<u8>) -> u32
    recommends
        packet.len() >= 5,
{
    be32_value(packet[1], packet[2], packet[3], packet[4])
}

/// The start of a frame, as `parse_start_packet` reads it: the tag, the
/// declared length and the payload bytes behind the head. A tag with an
/// empty payload needs no length field, and whatever follows it is no
/// payload. A head that is still short declares nothing yet.
pub open spec fn start_of(packet: Seq<u8>) -> Result<(u8, u32, Seq<u8>), PacketError> {
    if packet.len() == 0 {
        Err(PacketError::EmptyTag)
    } else if is_no_value_tag(packet[0]) || packet.len() < 5 {
        Ok((packet[0], 0u32, Seq::<u8>::empty()))
    } else if declared_length(packet) > PACKET_BYTE_LIMIT {
        Err(PacketError::OversizedFrame)
    } else {
        Ok((packet[0], declared_length(packet), packet.skip(5)))
    }
}

/// Whether `bytes` hold all of their frame, so that a reader need not wait
/// for more: a tag with an empty payload, a head that declares too much, or a
/// head with all the payload it declares.
pub open spec fn frame_complete(bytes: Seq<u8>) -> bool {
    bytes.len() > 0 && (is_no_value_tag(bytes[0]) || (bytes.len() >= 5 && (declared_length(bytes)
        > PACKET_BYTE_LIMIT || bytes.len() >= 5 + declared_length(bytes))))
}

/// The frame that `bytes` hold: the tag and exactly the declared number of
/// payload bytes. Bytes that stop short of their frame hold none that could
/// be decoded.
pub open spec fn decoded(bytes: Seq<u8>) -> Result<(u8, Seq<u8>), PacketError> {
    match start_of(bytes) {
        Ok((tag, length, value)) => if frame_complete(bytes) {
            Ok((tag, value.take(length as int)))
        } else {
            Err(PacketError::DecodeFailed)
        },
        Err(e) => Err(e),
    }
}

/// Reads the start of a frame from the first bytes that arrived.
pub fn parse_start_packet(packet: &[u8]) -> (r: Result<StartPacket<'_>, PacketError>)
    ensures
        match r {
            Ok(start) => start_of(packet@) == Ok::<(u8, u32, Seq<u8>), PacketError>(
                (start.tag, start.length, start.value@),
            ),
            Err(e) => start_of(packet@) == Err::<(u8, u32, Seq<u8>), PacketError>(e),
        },
{
    if packet.len() == 0 {
        return Err(PacketError::EmptyTag);
    }
    let tag = packet[0];
    if no_value_tag(tag) || packet.len() < 5 {
        let value = slice_subrange(packet, 0, 0);
        assert(value@ =~= Seq::<u8>::empty());
        return Ok(StartPacket { tag, length: 0, value });
    }
    let length = read_be32(packet[1], packet[2], packet[3], packet[4]);
    if length > PACKET_BYTE_LIMIT {
        return Err(PacketError::OversizedFrame);
    }
    let value = slice_subrange(packet, 5, packet.len());
    Ok(StartPacket { tag, length, value })
}

/// Decodes the frame that `packet` holds.
pub fn decode_packet(packet: &[u8]) -> (r: Result<(u8, Vec<u8>), PacketError>)
    ensures
        match r {
            Ok((tag, payload)) => decoded(packet@) == Ok::<(u8, Seq<u8>), PacketError>(
                (tag, payload@),
            ),
            Err(e) => decoded(packet@) == Err::<(u8, Seq<u8>), PacketError>(e),
        },
{
    let start = match parse_start_packet(packet) {
        Ok(start) => start,
        Err(e) => {
            return Err(e);
        },
    };
    let length = start.length as usize;
    if !no_value_tag(start.tag) && (packet.len() < 5 || start.value.len() < length) {
        return Err(PacketError::DecodeFailed);
    }
    let mut payload: Vec<u8> = Vec::new();
    payload.extend_from_slice(slice_subrange(start.value, 0, length));
    assert(payload@ =~= start.value@.take(length as int));
    Ok((start.tag, payload))
}

/// The tags with an empty payload are those of `NO_VALUE_TAGS`.
pub proof fn lemma_no_value_tags_are_listed(tag: u8)
    ensures
        is_no_value_tag(tag) <==> NO_VALUE_TAGS@.contains(tag),
{
}

/// Four bytes written by `be32` spell the number they were written from.
pub proof fn lemma_be32_round_trip(n: u32)
    ensures
        be32(n).len() == 4,
        be32_value(be32(n)[0], be32(n)[1], be32(n)[2], be32(n)[3]) == n,
{
}

/// The inputs that make a frame a reader takes back whole: a payload that a
/// frame may carry, and none under a tag whose payload is declared empty.
pub open spec fn frameable(tag: u8, payload: Seq<u8>) -> bool {
    fits_frame(payload) && (is_no_value_tag(tag) ==> payload.len() == 0)
}

/// Decoding an encoded frame gives back its tag and its payload, and the
/// encoded frame is complete.
pub proof fn lemma_frame_round_trip(tag: u8, payload: Seq<u8>)
    requires
        frameable(tag, payload),
    ensures
        frame_complete(frame(tag, payload)),
        decoded(frame(tag, payload)) == Ok::<(u8, Seq<u8>), PacketError>((tag, payload)),
{
    lemma_be32_round_trip(payload.len() as u32);
    assert(frame(tag, payload).skip(5) =~= payload);
    assert(payload.take(payload.len() as int) =~= payload);
    if is_no_value_tag(tag) {
        assert(Seq::<u8>::empty().take(0) =~= payload);
    }
}

} // verus!
