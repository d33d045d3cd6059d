//! The records that travel as payloads, and their binary form: each text
//! field is written as a four-byte big-endian length and its UTF-8 bytes, the
//! fields one behind the other in the order of declaration.

use crate::protocol::{
    be32, be32_value, fits_frame, lemma_be32_round_trip, PacketError, PACKET_BYTE_LIMIT,
};
use vstd::prelude::*;
use vstd::utf8::*;

verus! {

#[verifier::external_type_specification]
#[verifier::external_body]
pub struct ExDecodeError(chorba::DecodeError);

/// The text that `String::from_utf8_lossy` makes of bytes that are no valid
/// UTF-8.
pub uninterp spec fn lossy_text(bytes: Seq<u8>) -> Seq<char>;

/// The text that a field's bytes stand for: their decoding where they are
/// valid UTF-8, a lossy reading of them where they are not.
pub open spec fn text_of(bytes: Seq<u8>) -> Seq<char> {
    if valid_utf8(bytes) {
        decode_utf8(bytes)
    } else {
        lossy_text(bytes)
    }
}

/// A text whose UTF-8 form is short enough for its length to fit the four
/// bytes of a field's length.
pub open spec fn fits_field(text: Seq<char>) -> bool {
    encode_utf8(text).len() <= u32::MAX
}

/// One text field on the wire: the length of the text's UTF-8 form, then
/// that form.
pub open spec fn field_bytes(text: Seq<char>) -> Seq<u8>
    recommends
        fits_field(text),
{
    be32(encode_utf8(text).len() as u32) + encode_utf8(text)
}

/// Splits the first field off `bytes`: the field's content and what follows
/// it. There is none where fewer than four bytes are left, or fewer than the
/// four bytes declare.
pub open spec fn split_field(bytes: Seq<u8>) -> Option<(Seq<u8>, Seq<u8>)> {
    if bytes.len() < 4 {
        None
    } else {
        let n = be32_value(bytes[0], bytes[1], bytes[2], bytes[3]) as int;
        if bytes.len() - 4 < n {
            None
        } else {
            Some((bytes.subrange(4, 4 + n), bytes.skip(4 + n)))
        }
    }
}

/// `chorba::encode` on a `String`: the four big-endian bytes of the length
/// of its UTF-8 form, then those bytes. A text whose length does not fit the
/// four bytes, which `chorba::encode` would cut to its low 32 bits, is left
/// out.
#[verifier::external_body]
fn encode_text(text: &String) -> (out: Vec<u8>)
    requires
        fits_field(text@),
    ensures
        out@ == field_bytes(text@),
{
    chorba::encode(text)
}

/// `chorba::deserialize`: reads a four-byte big-endian length and hands out
/// that many bytes and the rest, or nothing where the input is too short for
/// either.
#[verifier::external_body]
fn take_field<'a>(bytes: &'a [u8]) -> (out: Option<(&'a [u8], &'a [u8])>)
    ensures
        match out {
            Some((field, rest)) => split_field(bytes@) == Some((field@, rest@)),
            None => split_field(bytes@) is None,
        },
{
    chorba::deserialize(bytes)
}

/// `chorba::decode` to a `String`: never fails; gives the text that the
/// bytes encode where they are valid UTF-8, and what
/// `String::from_utf8_lossy` makes of them where they are not.
#[verifier::external_body]
fn decode_text(bytes: &[u8]) -> (out: Result<String, chorba::DecodeError>)
    ensures
        out is Ok,
        valid_utf8(bytes@) ==> out->Ok_0@ == decode_utf8(bytes@),
        !valid_utf8(bytes@) ==> out->Ok_0@ == lossy_text(bytes@),
{
    chorba::decode::<String>(bytes)
}

/// Reads one text field from the front of `bytes`: the text and the bytes
/// behind the field.
fn read_field<'a>(bytes: &'a [u8]) -> (r: Result<(String, &'a [u8]), PacketError>)
    ensures
        match r {
            Ok((text, rest)) => split_field(bytes@) matches Some((field, after)) && text@
                == text_of(field) && rest@ == after,
            Err(e) => e == PacketError::DecodeFailed && split_field(bytes@) is None,
        },
{
    match take_field(bytes) {
        Some((field, rest)) => match decode_text(field) {
            Ok(text) => Ok((text, rest)),
            Err(_) => Err(PacketError::DecodeFailed),
        },
        None => Err(PacketError::DecodeFailed),
    }
}

/// A record of one text field on the wire.
pub open spec fn text_record_bytes(text: Seq<char>) -> Seq<u8> {
    field_bytes(text)
}

/// The record of one text field that `bytes` begin with, if they do.
pub open spec fn text_record_of(bytes: Seq<u8>) -> Option<Seq<char>> {
    match split_field(bytes) {
        Some((field, _)) => Some(text_of(field)),
        None => None,
    }
}

/// A record of a key and a value on the wire.
pub open spec fn pair_record_bytes(key: Seq<char>, value: Seq<char>) -> Seq<u8> {
    field_bytes(key) + field_bytes(value)
}

/// The record of a key and a value that `bytes` begin with, if they do.
pub open spec fn pair_record_of(bytes: Seq<u8>) -> Option<(Seq<char>, Seq<char>)> {
    match split_field(bytes) {
        Some((key, rest)) => match split_field(rest) {
            Some((value, _)) => Some((text_of(key), text_of(value))),
            None => None,
        },
        None => None,
    }
}

fn text_fits_frame(text: &String) -> (b: bool)
    ensures
        b == fits_frame(text_record_bytes(text@)),
        b ==> fits_field(text@),
{
    text.as_str().as_bytes().len() as u64 <= (PACKET_BYTE_LIMIT - 4) as u64
}

fn decode_text_record(bytes: &[u8]) -> (r: Result<String, PacketError>)
    ensures
        match r {
            Ok(text) => text_record_of(bytes@) == Some(text@),
            Err(e) => e == PacketError::DecodeFailed && text_record_of(bytes@) is None,
        },
{
    match read_field(bytes) {
        Ok((text, _)) => Ok(text),
        Err(e) => Err(e),
    }
}

/// Asks the store to bind `key` to `value`.
#[derive(Debug, Clone)]
pub struct SetRequest {
    pub key: String,
    pub value: String,
}

/// Asks the store for the value bound to `key`.
#[derive(Debug, Clone)]
pub struct GetRequest {
    pub key: String,
}

/// Carries the value that a `GetRequest` asked for.
#[derive(Debug, Clone)]
pub struct GetResponse {
    pub value: String,
}

/// Asks the store to drop the binding of `key`.
#[derive(Debug, Clone)]
pub struct DeleteRequest {
    pub key: String,
}

impl SetRequest {
    /// The record on the wire. Each text must fit a field.
    pub fn encode(&self) -> (buffer: Vec<u8>)
        requires
            fits_field(self.key@),
            fits_field(self.value@),
        ensures
            buffer@ == pair_record_bytes(self.key@, self.value@),
    {
        let mut buffer: Vec<u8> = Vec::new();
        let mut bytes = encode_text(&self.key);
        buffer.append(&mut bytes);
        let mut bytes = encode_text(&self.value);
        buffer.append(&mut bytes);
        buffer
    }

    /// Whether a frame may carry the record.
    pub fn fits_frame(&self) -> (b: bool)
        ensures
            b == fits_frame(pair_record_bytes(self.key@, self.value@)),
            b ==> fits_field(self.key@) && fits_field(self.value@),
    {
        let key_len = self.key.as_str().as_bytes().len() as u64;
        let value_len = self.value.as_str().as_bytes().len() as u64;
        let limit = PACKET_BYTE_LIMIT as u64;
        key_len <= limit && value_len <= limit && key_len + value_len + 8 <= limit
    }

    /// Reads the record from the front of `buffer`.
    pub fn decode(buffer: &[u8]) -> (r: Result<SetRequest, PacketError>)
        ensures
            match r {
                Ok(request) => pair_record_of(buffer@) == Some((request.key@, request.value@)),
                Err(e) => e == PacketError::DecodeFailed && pair_record_of(buffer@) is None,
            },
    {
        let (key, buffer) = match read_field(buffer) {
            Ok(field) => field,
            Err(e) => {
                return Err(e);
            },
        };
        let (value, _) = match read_field(buffer) {
            Ok(field) => field,
            Err(e) => {
                return Err(e);
            },
        };
        Ok(SetRequest { key, value })
    }
}

impl GetRequest {
    /// The record on the wire. The key must fit a field.
    pub fn encode(&self) -> (buffer: Vec<u8>)
        requires
            fits_field(self.key@),
        ensures
            buffer@ == text_record_bytes(self.key@),
    {
        encode_text(&self.key)
    }

    /// Whether a frame may carry the record.
    pub fn fits_frame(&self) -> (b: bool)
        ensures
            b == fits_frame(text_record_bytes(self.key@)),
            b ==> fits_field(self.key@),
    {
        text_fits_frame(&self.key)
    }

    /// Reads the record from the front of `buffer`.
    pub fn decode(buffer: &[u8]) -> (r: Result<GetRequest, PacketError>)
        ensures
            match r {
                Ok(request) => text_record_of(buffer@) == Some(request.key@),
                Err(e) => e == PacketError::DecodeFailed && text_record_of(buffer@) is None,
            },
    {
        match decode_text_record(buffer) {
            Ok(key) => Ok(GetRequest { key }),
            Err(e) => Err(e),
        }
    }
}

impl GetResponse {
    /// The record on the wire. The value must fit a field.
    pub fn encode(&self) -> (buffer: Vec<u8>)
        requires
            fits_field(self.value@),
        ensures
            buffer@ == text_record_bytes(self.value@),
    {
        encode_text(&self.value)
    }

    /// Whether a frame may carry the record.
    pub fn fits_frame(&self) -> (b: bool)
        ensures
            b == fits_frame(text_record_bytes(self.value@)),
            b ==> fits_field(self.value@),
    {
        text_fits_frame(&self.value)
    }

    /// Reads the record from the front of `buffer`.
    pub fn decode(buffer: &[u8]) -> (r: Result<GetResponse, PacketError>)
        ensures
            match r {
                Ok(response) => text_record_of(buffer@) == Some(response.value@),
                Err(e) => e == PacketError::DecodeFailed && text_record_of(buffer@) is None,
            },
    {
        match decode_text_record(buffer) {
            Ok(value) => Ok(GetResponse { value }),
            Err(e) => Err(e),
        }
    }
}

impl DeleteRequest {
    /// The record on the wire. The key must fit a field.
    pub fn encode(&self) -> (buffer: Vec<u8>)
        requires
            fits_field(self.key@),
        ensures
            buffer@ == text_record_bytes(self.key@),
    {
        encode_text(&self.key)
    }

    /// Whether a frame may carry the record.
    pub fn fits_frame(&self) -> (b: bool)
        ensures
            b == fits_frame(text_record_bytes(self.key@)),
            b ==> fits_field(self.key@),
    {
        text_fits_frame(&self.key)
    }

    /// Reads the record from the front of `buffer`.
    pub fn decode(buffer: &[u8]) -> (r: Result<DeleteRequest, PacketError>)
        ensures
            match r {
                Ok(request) => text_record_of(buffer@) == Some(request.key@),
                Err(e) => e == PacketError::DecodeFailed && text_record_of(buffer@) is None,
            },
    {
        match decode_text_record(buffer) {
            Ok(key) => Ok(DeleteRequest { key }),
            Err(e) => Err(e),
        }
    }
}

/// A written field, with anything behind it, splits into the text's UTF-8
/// bytes and what was behind it, and those bytes stand for the text.
pub proof fn lemma_field_round_trip(text: Seq<char>, rest: Seq<u8>)
    requires
        fits_field(text),
    ensures
        split_field(field_bytes(text) + rest) == Some((encode_utf8(text), rest)),
        text_of(encode_utf8(text)) == text,
{
    lemma_be32_round_trip(encode_utf8(text).len() as u32);
    encode_utf8_valid_utf8(text);
    encode_utf8_decode_utf8(text);
}

/// Decoding an encoded record of one field gives back its text.
pub proof fn lemma_text_record_round_trip(text: Seq<char>)
    requires
        fits_field(text),
    ensures
        text_record_of(text_record_bytes(text)) == Some(text),
{
    lemma_field_round_trip(text, Seq::<u8>::empty());
}

/// Decoding an encoded record of a key and a value gives back both.
pub proof fn lemma_pair_record_round_trip(key: Seq<char>, value: Seq<char>)
    requires
        fits_field(key),
        fits_field(value),
    ensures
        pair_record_of(pair_record_bytes(key, value)) == Some((key, value)),
{
    lemma_field_round_trip(key, field_bytes(value));
    lemma_field_round_trip(value, Seq::<u8>::empty());
}

} // verus!
