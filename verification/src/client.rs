//! The client's side of an exchange: its configuration, the request frames
//! it writes, and what it makes of the frame that answers.

use crate::protocol::{
    fits_frame, frame, generate_packet, PacketError, CLEAR, CLEAR_OK, DELETE, DELETE_OK, GET,
    GET_OK, PING, PONG, SET, SET_OK,
};
use crate::record::{
    pair_record_bytes, text_record_bytes, text_record_of, DeleteRequest, GetRequest, GetResponse,
    SetRequest,
};
use crate::session::bare;
use vstd::prelude::*;

verus! {

/// Why a request did not succeed.
#[derive(Debug, Clone, Copy, PartialEq, Eq, Structural)]
pub enum ClientError {
    /// The connection could not be made, or failed while the answer was
    /// read, or the answer could not be read as a frame or a record.
    ConnectionError,
    /// The request could not be written.
    SendRequestError,
    /// The answer does not carry the tag that reports success.
    InvalidResponseTag,
}

pub type ClientResult<T> = Result<T, ClientError>;

pub const MIN_CONNECTION_DEFAULT: u32 = 1;

pub const MAX_CONNECTION_DEFAULT: u32 = 10;

/// Thirty seconds, in milliseconds.
pub const CONNECTION_TIMEOUT_DEFAULT: u64 = 30_000;

/// Sixty seconds, in milliseconds.
pub const IDLE_TIMEOUT_DEFAULT: u64 = 60_000;

/// Where the server is, and how the pool of connections to it is kept.
#[derive(Debug, Clone)]
pub struct ConnectionConfig {
    pub host: String,
    pub port: u16,
    /// The number of connections to keep.
    pub min_connections: u32,
    /// The number of connections never to go over.
    pub max_connections: u32,
    /// How long a checkout may wait for a connection, in milliseconds.
    pub connection_timeout: u64,
    /// How long a connection may lie idle, in milliseconds.
    pub idle_timeout: u64,
}

impl ConnectionConfig {
    /// Whether the pool's limits and timeouts are the defaults.
    pub open spec fn with_defaults(self) -> bool {
        &&& self.min_connections == MIN_CONNECTION_DEFAULT
        &&& self.max_connections == MAX_CONNECTION_DEFAULT
        &&& self.connection_timeout == CONNECTION_TIMEOUT_DEFAULT
        &&& self.idle_timeout == IDLE_TIMEOUT_DEFAULT
    }

    /// The default configuration for the server at `host` and `port`.
    pub fn new(host: String, port: u16) -> (config: Self)
        ensures
            config.host == host,
            config.port == port,
            config.with_defaults(),
    {
        Self {
            host,
            port,
            min_connections: MIN_CONNECTION_DEFAULT,
            max_connections: MAX_CONNECTION_DEFAULT,
            connection_timeout: CONNECTION_TIMEOUT_DEFAULT,
            idle_timeout: IDLE_TIMEOUT_DEFAULT,
        }
    }
}

impl Default for ConnectionConfig {
    /// The default configuration, with no host and port 0.
    fn default() -> (config: Self)
        ensures
            config.host@ == Seq::<char>::empty(),
            config.port == 0,
            config.with_defaults(),
    {
        Self {
            min_connections: MIN_CONNECTION_DEFAULT,
            max_connections: MAX_CONNECTION_DEFAULT,
            connection_timeout: CONNECTION_TIMEOUT_DEFAULT,
            idle_timeout: IDLE_TIMEOUT_DEFAULT,
            host: String::new(),
            port: 0,
        }
    }
}

/// The frame of a SET request.
pub open spec fn set_frame(key: Seq<char>, value: Seq<char>) -> Seq<u8> {
    frame(SET, pair_record_bytes(key, value))
}

/// The frame of a GET request.
pub open spec fn get_frame(key: Seq<char>) -> Seq<u8> {
    frame(GET, text_record_bytes(key))
}

/// The frame of a DELETE request.
pub open spec fn delete_frame(key: Seq<char>) -> Seq<u8> {
    frame(DELETE, text_record_bytes(key))
}

/// What a client makes of an answer that should carry `expected` and carries
/// `tag`.
pub open spec fn acknowledged(expected: u8, tag: u8) -> ClientResult<()> {
    if tag == expected {
        Ok(())
    } else {
        Err(ClientError::InvalidResponseTag)
    }
}

/// What a client makes of the answer to a GET: the value, where the answer
/// is GET_OK and carries one.
pub open spec fn fetched(tag: u8, payload: Seq<u8>) -> ClientResult<Seq<char>> {
    if tag != GET_OK {
        Err(ClientError::InvalidResponseTag)
    } else {
        match text_record_of(payload) {
            Some(value) => Ok(value),
            None => Err(ClientError::ConnectionError),
        }
    }
}

fn acknowledge(expected: u8, tag: u8) -> (r: ClientResult<()>)
    ensures
        r == acknowledged(expected, tag),
{
    if tag == expected {
        Ok(())
    } else {
        Err(ClientError::InvalidResponseTag)
    }
}

fn bare_request(tag: u8) -> (packet: Vec<u8>)
    ensures
        packet@ == bare(tag),
{
    let empty: Vec<u8> = Vec::new();
    generate_packet(tag, empty.as_slice())
}

/// The frame that asks for a PONG.
pub fn ping_request() -> (packet: Vec<u8>)
    ensures
        packet@ == bare(PING),
{
    bare_request(PING)
}

/// Reads the answer to a PING.
pub fn ping_response(tag: u8) -> (r: ClientResult<()>)
    ensures
        r == acknowledged(PONG, tag),
{
    acknowledge(PONG, tag)
}

/// The frame that carries `request`, which must be one that a frame may
/// carry.
pub fn get_request(request: &GetRequest) -> (packet: Vec<u8>)
    requires
        fits_frame(text_record_bytes(request.key@)),
    ensures
        packet@ == get_frame(request.key@),
{
    let request_bytes = request.encode();
    generate_packet(GET, request_bytes.as_slice())
}

/// Reads the answer to a GET.
pub fn get_response(tag: u8, payload: &[u8]) -> (r: ClientResult<GetResponse>)
    ensures
        match r {
            Ok(response) => fetched(tag, payload@) == Ok::<Seq<char>, ClientError>(
                response.value@,
            ),
            Err(e) => fetched(tag, payload@) == Err::<Seq<char>, ClientError>(e),
        },
{
    if tag != GET_OK {
        return Err(ClientError::InvalidResponseTag);
    }
    match GetResponse::decode(payload) {
        Ok(response) => Ok(response),
        Err(_) => Err(ClientError::ConnectionError),
    }
}

/// The frame that carries `request`, which must be one that a frame may
/// carry.
pub fn set_request(request: &SetRequest) -> (packet: Vec<u8>)
    requires
        fits_frame(pair_record_bytes(request.key@, request.value@)),
    ensures
        packet@ == set_frame(request.key@, request.value@),
{
    let request_bytes = request.encode();
    generate_packet(SET, request_bytes.as_slice())
}

/// Reads the answer to a SET.
pub fn set_response(tag: u8) -> (r: ClientResult<()>)
    ensures
        r == acknowledged(SET_OK, tag),
{
    acknowledge(SET_OK, tag)
}

/// The frame that carries `request`, which must be one that a frame may
/// carry.
pub fn delete_request(request: &DeleteRequest) -> (packet: Vec<u8>)
    requires
        fits_frame(text_record_bytes(request.key@)),
    ensures
        packet@ == delete_frame(request.key@),
{
    let request_bytes = request.encode();
    generate_packet(DELETE, request_bytes.as_slice())
}

/// Reads the answer to a DELETE.
pub fn delete_response(tag: u8) -> (r: ClientResult<()>)
    ensures
        r == acknowledged(DELETE_OK, tag),
{
    acknowledge(DELETE_OK, tag)
}

/// The frame that asks for the store to be cleared.
pub fn clear_request() -> (packet: Vec<u8>)
    ensures
        packet@ == bare(CLEAR),
{
    bare_request(CLEAR)
}

/// Reads the answer to a CLEAR.
pub fn clear_response(tag: u8) -> (r: ClientResult<()>)
    ensures
        r == acknowledged(CLEAR_OK, tag),
{
    acknowledge(CLEAR_OK, tag)
}

/// What a client reports where no answer could be read.
pub fn read_failure(error: PacketError) -> (e: ClientError)
    ensures
        e == ClientError::ConnectionError,
{
    ClientError::ConnectionError
}

} // verus!
