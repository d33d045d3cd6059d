//! What a server session does with each frame it reads: the dispatch onto
//! the store and the one frame it answers with. The session reads a frame,
//! acts, writes the answer and reads again, until the stream fails or the
//! peer closes it.

use crate::engine::{lookup, Bindings, KVEngine, KVError};
use crate::protocol::{
    fits_frame, frame, generate_packet, PacketError, CLEAR, CLEAR_OK, DELETE, DELETE_OK, ERROR,
    GET, GET_OK, PACKET_INVALID, PING, PONG, SET, SET_OK,
};
use crate::reader::{ReadAction, ReadStep};
use crate::record::{
    pair_record_of, text_record_bytes, text_record_of, DeleteRequest, GetRequest, GetResponse,
    SetRequest,
};
use vstd::prelude::*;

verus! {

/// A frame that carries only its tag.
pub open spec fn bare(tag: u8) -> Seq<u8> {
    frame(tag, Seq::<u8>::empty())
}

/// The frame that answers a GET with `value`.
pub open spec fn value_frame(value: Seq<char>) -> Seq<u8> {
    frame(GET_OK, text_record_bytes(value))
}

/// The store and the answer after a SET with `payload`.
pub open spec fn after_set(store: Bindings, payload: Seq<u8>) -> (Bindings, Seq<u8>) {
    match pair_record_of(payload) {
        Some((key, value)) => (store.insert(key, value), bare(SET_OK)),
        None => (store, bare(PACKET_INVALID)),
    }
}

/// The answer to a GET with `payload`: the value, where the key is bound to
/// one that a frame may carry.
pub open spec fn answer_to_get(store: Bindings, payload: Seq<u8>) -> Seq<u8> {
    match text_record_of(payload) {
        Some(key) => match lookup(store, key) {
            Ok(value) => if fits_frame(text_record_bytes(value)) {
                value_frame(value)
            } else {
                bare(ERROR)
            },
            Err(_) => bare(ERROR),
        },
        None => bare(PACKET_INVALID),
    }
}

/// The store and the answer after a DELETE with `payload`.
pub open spec fn after_delete(store: Bindings, payload: Seq<u8>) -> (Bindings, Seq<u8>) {
    match text_record_of(payload) {
        Some(key) => if store.contains_key(key) {
            (store.remove(key), bare(DELETE_OK))
        } else {
            (store, bare(ERROR))
        },
        None => (store, bare(PACKET_INVALID)),
    }
}

/// The store and the answer after the frame `tag`, `payload`.
pub open spec fn served(store: Bindings, tag: u8, payload: Seq<u8>) -> (Bindings, Seq<u8>) {
    if tag == PING {
        (store, bare(PONG))
    } else if tag == SET {
        after_set(store, payload)
    } else if tag == GET {
        (store, answer_to_get(store, payload))
    } else if tag == DELETE {
        after_delete(store, payload)
    } else if tag == CLEAR {
        (Bindings::empty(), bare(CLEAR_OK))
    } else {
        (store, bare(PACKET_INVALID))
    }
}

/// The answer to the frame `tag`, `payload` while the store cannot be
/// reached: what needs the store fails, the rest is answered as ever.
pub open spec fn answer_without_store(tag: u8, payload: Seq<u8>) -> Seq<u8> {
    if tag == PING {
        bare(PONG)
    } else if tag == SET {
        if pair_record_of(payload) is Some {
            bare(ERROR)
        } else {
            bare(PACKET_INVALID)
        }
    } else if tag == GET || tag == DELETE {
        if text_record_of(payload) is Some {
            bare(ERROR)
        } else {
            bare(PACKET_INVALID)
        }
    } else if tag == CLEAR {
        bare(ERROR)
    } else {
        bare(PACKET_INVALID)
    }
}

/// What a session does next: a `SessionAction` with its bytes as a sequence.
pub enum SessionMove {
    Read,
    Reply(Seq<u8>),
    Close,
}

/// What a session does next.
#[derive(Debug)]
pub enum SessionAction {
    /// Read the stream again.
    Read,
    /// Write these bytes, then read the next frame; end the session if they
    /// cannot be written.
    Reply(Vec<u8>),
    /// End the session.
    Close,
}

impl View for SessionAction {
    type V = SessionMove;

    open spec fn view(&self) -> SessionMove {
        match *self {
            SessionAction::Read => SessionMove::Read,
            SessionAction::Reply(answer) => SessionMove::Reply(answer@),
            SessionAction::Close => SessionMove::Close,
        }
    }
}

/// What a session does after a read that gave no frame: it ends on a closed
/// or failed stream, and answers anything else with PACKET_INVALID.
pub open spec fn move_after_failure(error: PacketError) -> SessionMove {
    match error {
        PacketError::NoDataReceived | PacketError::ReadFailed => SessionMove::Close,
        _ => SessionMove::Reply(bare(PACKET_INVALID)),
    }
}

/// One turn of a session, from the store and what the reader said to the
/// store afterwards and what the session does next.
pub open spec fn turn(store: Bindings, read: ReadStep) -> (Bindings, SessionMove) {
    match read {
        ReadStep::ReadMore => (store, SessionMove::Read),
        ReadStep::Deliver { tag, payload } => {
            let (next, answer) = served(store, tag, payload);
            (next, SessionMove::Reply(answer))
        },
        ReadStep::Fail(error) => (store, move_after_failure(error)),
    }
}

/// What a session does once its answer has been written, or could not be.
pub open spec fn move_after_write(written: bool) -> SessionMove {
    if written {
        SessionMove::Read
    } else {
        SessionMove::Close
    }
}

/// One turn of a session that cannot reach the store.
pub open spec fn turn_without_store(read: ReadStep) -> SessionMove {
    match read {
        ReadStep::ReadMore => SessionMove::Read,
        ReadStep::Deliver { tag, payload } => SessionMove::Reply(
            answer_without_store(tag, payload),
        ),
        ReadStep::Fail(error) => move_after_failure(error),
    }
}

fn bare_frame(tag: u8) -> (packet: Vec<u8>)
    ensures
        packet@ == bare(tag),
{
    let empty: Vec<u8> = Vec::new();
    generate_packet(tag, empty.as_slice())
}

/// Serves a SET: decodes the request, binds the key, and answers SET_OK;
/// PACKET_INVALID where the payload is no request.
pub fn process_set(engine: &mut KVEngine, bytes: &[u8]) -> (answer: Vec<u8>)
    ensures
        (final(engine)@, answer@) == after_set(old(engine)@, bytes@),
{
    let set_request = match SetRequest::decode(bytes) {
        Ok(set_request) => set_request,
        Err(_) => {
            return bare_frame(PACKET_INVALID);
        },
    };
    match engine.set_key_value(set_request.key, set_request.value) {
        Ok(()) => bare_frame(SET_OK),
        Err(_) => bare_frame(ERROR),
    }
}

/// Serves a GET: decodes the request and answers GET_OK with the value;
/// ERROR where the key is not bound or the value is too long for a frame,
/// PACKET_INVALID where the payload is no request.
pub fn process_get(engine: &KVEngine, bytes: &[u8]) -> (answer: Vec<u8>)
    ensures
        answer@ == answer_to_get(engine@, bytes@),
{
    let get_request = match GetRequest::decode(bytes) {
        Ok(get_request) => get_request,
        Err(_) => {
            return bare_frame(PACKET_INVALID);
        },
    };
    match engine.get_key_value(get_request.key.as_str()) {
        Ok(value) => {
            let get_response = GetResponse { value };
            if !get_response.fits_frame() {
                return bare_frame(ERROR);
            }
            let response_bytes = get_response.encode();
            generate_packet(GET_OK, response_bytes.as_slice())
        },
        Err(_) => bare_frame(ERROR),
    }
}

/// Serves a DELETE: decodes the request, drops the binding, and answers
/// DELETE_OK; ERROR where the key is not bound, PACKET_INVALID where the
/// payload is no request.
pub fn process_delete(engine: &mut KVEngine, bytes: &[u8]) -> (answer: Vec<u8>)
    ensures
        (final(engine)@, answer@) == after_delete(old(engine)@, bytes@),
{
    let delete_request = match DeleteRequest::decode(bytes) {
        Ok(delete_request) => delete_request,
        Err(_) => {
            return bare_frame(PACKET_INVALID);
        },
    };
    match engine.delete_key_value(delete_request.key.as_str()) {
        Ok(()) => bare_frame(DELETE_OK),
        Err(_) => {
            bare_frame(ERROR)
        },
    }
}

/// Serves one frame: acts on the store as the tag asks and gives the frame
/// to answer with.
pub fn handle_frame(engine: &mut KVEngine, tag: u8, payload: &[u8]) -> (answer: Vec<u8>)
    ensures
        (final(engine)@, answer@) == served(old(engine)@, tag, payload@),
{
    if tag == PING {
        bare_frame(PONG)
    } else if tag == SET {
        process_set(engine, payload)
    } else if tag == GET {
        process_get(engine, payload)
    } else if tag == DELETE {
        process_delete(engine, payload)
    } else if tag == CLEAR {
        match engine.clear_all() {
            Ok(()) => bare_frame(CLEAR_OK),
            Err(_) => bare_frame(ERROR),
        }
    } else {
        bare_frame(PACKET_INVALID)
    }
}

/// Answers one frame for a session that could not lock the store.
pub fn handle_frame_without_store(tag: u8, payload: &[u8]) -> (answer: Vec<u8>)
    ensures
        answer@ == answer_without_store(tag, payload@),
{
    if tag == PING {
        bare_frame(PONG)
    } else if tag == SET {
        match SetRequest::decode(payload) {
            Ok(_) => bare_frame(ERROR),
            Err(_) => bare_frame(PACKET_INVALID),
        }
    } else if tag == GET || tag == DELETE {
        match GetRequest::decode(payload) {
            Ok(_) => bare_frame(ERROR),
            Err(_) => bare_frame(PACKET_INVALID),
        }
    } else if tag == CLEAR {
        bare_frame(ERROR)
    } else {
        bare_frame(PACKET_INVALID)
    }
}

/// Decides what follows a read that gave no frame.
pub fn handle_failure(error: PacketError) -> (action: SessionAction)
    ensures
        action@ == move_after_failure(error),
{
    match error {
        PacketError::NoDataReceived | PacketError::ReadFailed => SessionAction::Close,
        _ => SessionAction::Reply(bare_frame(PACKET_INVALID)),
    }
}

/// Decides what follows the writing of an answer: the next frame is read,
/// unless the answer could not be written.
pub fn after_write(written: bool) -> (action: SessionAction)
    ensures
        action@ == move_after_write(written),
{
    if written {
        SessionAction::Read
    } else {
        SessionAction::Close
    }
}

/// Takes one turn of a session on what its reader said. `engine` is the
/// store, or why it could not be locked.
pub fn take_turn(engine: Result<&mut KVEngine, KVError>, read: ReadAction) -> (action:
    SessionAction)
    ensures
        match engine {
            Ok(store) => (final(store)@, action@) == turn(store@, read@),
            Err(_) => action@ == turn_without_store(read@),
        },
{
    match read {
        ReadAction::ReadMore => SessionAction::Read,
        ReadAction::Deliver { tag, payload } => match engine {
            Ok(store) => SessionAction::Reply(handle_frame(store, tag, payload.as_slice())),
            Err(_) => SessionAction::Reply(handle_frame_without_store(tag, payload.as_slice())),
        },
        ReadAction::Fail(error) => handle_failure(error),
    }
}

} // verus!
