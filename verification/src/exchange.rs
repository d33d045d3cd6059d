//! What holds of whole exchanges between a client and a session: a request
//! written by the one is read, served and answered by the other, and the
//! answer is read back.

use crate::client::{
    acknowledged, delete_frame, fetched, get_frame, set_frame, ClientError,
};
use crate::engine::Bindings;
use crate::protocol::{
    declared_length, fits_frame, frame, frameable, is_no_value_tag, CLEAR, CLEAR_OK, DELETE,
    DELETE_OK, ERROR, GET, GET_OK, KEY_BYTE_LIMIT, PACKET_BYTE_LIMIT, PACKET_INVALID, PING, PONG,
    SET, SET_OK, VALUE_BYTE_LIMIT,
};
use crate::reader::{after_chunk, lemma_whole_frame_is_delivered, ReadStep};
use crate::record::{
    lemma_pair_record_round_trip, lemma_text_record_round_trip, pair_record_bytes,
    text_record_bytes,
};
use crate::session::{bare, served, turn, value_frame, SessionMove};
use vstd::prelude::*;
use vstd::utf8::*;

verus! {

/// The turn that a session takes on `request`, where the bytes arrive in one
/// read.
pub open spec fn exchange(store: Bindings, request: Seq<u8>) -> (Bindings, SessionMove) {
    turn(store, after_chunk(Seq::<u8>::empty(), request).1)
}

/// What a client's reader makes of `answer`, where the bytes arrive in one
/// read.
pub open spec fn heard(answer: Seq<u8>) -> ReadStep {
    after_chunk(Seq::<u8>::empty(), answer).1
}

/// A key that is no longer than `KEY_BYTE_LIMIT`.
pub open spec fn key_in_limit(key: Seq<char>) -> bool {
    encode_utf8(key).len() <= KEY_BYTE_LIMIT
}

/// A value that is no longer than `VALUE_BYTE_LIMIT`.
pub open spec fn value_in_limit(value: Seq<char>) -> bool {
    encode_utf8(value).len() <= VALUE_BYTE_LIMIT
}

/// A key and a value within their limits make a SET that a frame may carry,
/// and so do the GET of the key and the answer that carries the value.
pub proof fn lemma_limits_fit_a_frame(key: Seq<char>, value: Seq<char>)
    requires
        key_in_limit(key),
        value_in_limit(value),
    ensures
        fits_frame(pair_record_bytes(key, value)),
        fits_frame(text_record_bytes(key)),
        fits_frame(text_record_bytes(value)),
{
}

/// A frame that arrives whole is served as its tag and payload ask.
pub proof fn lemma_frame_is_served(store: Bindings, tag: u8, payload: Seq<u8>)
    requires
        frameable(tag, payload),
    ensures
        exchange(store, frame(tag, payload)) == (
            served(store, tag, payload).0,
            SessionMove::Reply(served(store, tag, payload).1),
        ),
        heard(frame(tag, payload)) == (ReadStep::Deliver { tag, payload }),
{
    lemma_whole_frame_is_delivered(tag, payload);
}

/// A PING is answered with a PONG, which the client takes for success.
pub proof fn lemma_ping_is_answered(store: Bindings)
    ensures
        exchange(store, bare(PING)) == (store, SessionMove::Reply(bare(PONG))),
        heard(bare(PONG)) == (ReadStep::Deliver { tag: PONG, payload: Seq::<u8>::empty() }),
        acknowledged(PONG, PONG) is Ok,
{
    lemma_frame_is_served(store, PING, Seq::<u8>::empty());
    lemma_frame_is_served(store, PONG, Seq::<u8>::empty());
}

/// A SET that a frame may carry binds the key and is answered with SET_OK.
pub proof fn lemma_set_is_served(store: Bindings, key: Seq<char>, value: Seq<char>)
    requires
        fits_frame(pair_record_bytes(key, value)),
    ensures
        exchange(store, set_frame(key, value)) == (
            store.insert(key, value),
            SessionMove::Reply(bare(SET_OK)),
        ),
        heard(bare(SET_OK)) == (ReadStep::Deliver { tag: SET_OK, payload: Seq::<u8>::empty() }),
        acknowledged(SET_OK, SET_OK) is Ok,
{
    lemma_pair_record_round_trip(key, value);
    lemma_frame_is_served(store, SET, pair_record_bytes(key, value));
    lemma_frame_is_served(store, SET_OK, Seq::<u8>::empty());
}

/// A GET of a bound key is answered with its value, which the client reads
/// back, where a frame may carry the request and the answer.
pub proof fn lemma_get_is_served(store: Bindings, key: Seq<char>)
    requires
        fits_frame(text_record_bytes(key)),
        store.contains_key(key),
        fits_frame(text_record_bytes(store[key])),
    ensures
        exchange(store, get_frame(key)) == (store, SessionMove::Reply(value_frame(store[key]))),
        heard(value_frame(store[key])) == (ReadStep::Deliver {
            tag: GET_OK,
            payload: text_record_bytes(store[key]),
        }),
        fetched(GET_OK, text_record_bytes(store[key])) == Ok::<Seq<char>, ClientError>(
            store[key],
        ),
{
    lemma_text_record_round_trip(key);
    lemma_text_record_round_trip(store[key]);
    lemma_frame_is_served(store, GET, text_record_bytes(key));
    lemma_frame_is_served(store, GET_OK, text_record_bytes(store[key]));
}

/// A GET of a key that is not bound is answered with ERROR, which the client
/// reports as a failure.
pub proof fn lemma_miss_is_reported(store: Bindings, key: Seq<char>)
    requires
        fits_frame(text_record_bytes(key)),
        !store.contains_key(key),
    ensures
        exchange(store, get_frame(key)) == (store, SessionMove::Reply(bare(ERROR))),
        heard(bare(ERROR)) == (ReadStep::Deliver { tag: ERROR, payload: Seq::<u8>::empty() }),
        fetched(ERROR, Seq::<u8>::empty()) == Err::<Seq<char>, ClientError>(
            ClientError::InvalidResponseTag,
        ),
{
    lemma_text_record_round_trip(key);
    lemma_frame_is_served(store, GET, text_record_bytes(key));
    lemma_frame_is_served(store, ERROR, Seq::<u8>::empty());
}

/// A DELETE of a bound key drops the binding and is answered with DELETE_OK.
pub proof fn lemma_delete_is_served(store: Bindings, key: Seq<char>)
    requires
        fits_frame(text_record_bytes(key)),
        store.contains_key(key),
    ensures
        exchange(store, delete_frame(key)) == (
            store.remove(key),
            SessionMove::Reply(bare(DELETE_OK)),
        ),
{
    lemma_text_record_round_trip(key);
    lemma_frame_is_served(store, DELETE, text_record_bytes(key));
}

/// A CLEAR empties the store and is answered with CLEAR_OK.
pub proof fn lemma_clear_is_served(store: Bindings)
    ensures
        exchange(store, bare(CLEAR)) == (Bindings::empty(), SessionMove::Reply(bare(CLEAR_OK))),
{
    lemma_frame_is_served(store, CLEAR, Seq::<u8>::empty());
}

/// After a SET of a key and a value within the limits, a GET of the key is
/// answered with the value.
pub proof fn lemma_set_then_get(store: Bindings, key: Seq<char>, value: Seq<char>)
    requires
        key_in_limit(key),
        value_in_limit(value),
    ensures
        ({
            let stored = exchange(store, set_frame(key, value)).0;
            &&& exchange(stored, get_frame(key)) == (
                stored,
                SessionMove::Reply(value_frame(value)),
            )
            &&& heard(value_frame(value)) == (ReadStep::Deliver {
                tag: GET_OK,
                payload: text_record_bytes(value),
            })
            &&& fetched(GET_OK, text_record_bytes(value)) == Ok::<Seq<char>, ClientError>(value)
        }),
{
    lemma_limits_fit_a_frame(key, value);
    lemma_set_is_served(store, key, value);
    lemma_get_is_served(store.insert(key, value), key);
}

/// After two SETs of one key, a GET of the key is answered with the second
/// value, where a frame may carry each SET.
pub proof fn lemma_set_twice_then_get(
    store: Bindings,
    key: Seq<char>,
    first: Seq<char>,
    second: Seq<char>,
)
    requires
        fits_frame(pair_record_bytes(key, first)),
        fits_frame(pair_record_bytes(key, second)),
    ensures
        ({
            let once = exchange(store, set_frame(key, first)).0;
            let twice = exchange(once, set_frame(key, second)).0;
            &&& exchange(twice, get_frame(key)) == (
                twice,
                SessionMove::Reply(value_frame(second)),
            )
            &&& fetched(GET_OK, text_record_bytes(second)) == Ok::<Seq<char>, ClientError>(
                second,
            )
        }),
{
    lemma_set_is_served(store, key, first);
    lemma_set_is_served(store.insert(key, first), key, second);
    lemma_get_is_served(store.insert(key, first).insert(key, second), key);
}

/// After a SET and a DELETE of one key, a GET of the key is answered with
/// ERROR, where a frame may carry the SET.
pub proof fn lemma_set_then_delete_then_get(store: Bindings, key: Seq<char>, value: Seq<char>)
    requires
        fits_frame(pair_record_bytes(key, value)),
    ensures
        ({
            let stored = exchange(store, set_frame(key, value)).0;
            let dropped = exchange(stored, delete_frame(key)).0;
            &&& exchange(stored, delete_frame(key)).1 == SessionMove::Reply(bare(DELETE_OK))
            &&& exchange(dropped, get_frame(key)) == (dropped, SessionMove::Reply(bare(ERROR)))
        }),
{
    lemma_set_is_served(store, key, value);
    lemma_delete_is_served(store.insert(key, value), key);
    lemma_miss_is_reported(store.insert(key, value).remove(key), key);
}

/// After a CLEAR, a GET of any key is answered with ERROR, whatever was
/// bound before, where a frame may carry the GET.
pub proof fn lemma_clear_then_get(store: Bindings, key: Seq<char>)
    requires
        fits_frame(text_record_bytes(key)),
    ensures
        ({
            let cleared = exchange(store, bare(CLEAR)).0;
            exchange(cleared, get_frame(key)) == (cleared, SessionMove::Reply(bare(ERROR)))
        }),
{
    lemma_clear_is_served(store);
    lemma_miss_is_reported(Bindings::empty(), key);
}

/// A frame that declares more than `PACKET_BYTE_LIMIT` bytes of payload is
/// answered with PACKET_INVALID as soon as its head is in, and leaves the
/// store as it was. The tag must be one that carries a payload: behind any
/// other no length is read.
pub proof fn lemma_oversized_frame_is_rejected(
    store: Bindings,
    received: Seq<u8>,
    chunk: Seq<u8>,
)
    requires
        chunk.len() > 0,
        (received + chunk).len() >= 5,
        !is_no_value_tag((received + chunk)[0]),
        declared_length(received + chunk) > PACKET_BYTE_LIMIT,
    ensures
        turn(store, after_chunk(received, chunk).1) == (
            store,
            SessionMove::Reply(bare(PACKET_INVALID)),
        ),
{
}

/// A turn that is answered with PACKET_INVALID leaves the store as it was:
/// whatever another session asks next is served as if the turn had not been
/// taken.
pub proof fn lemma_invalid_frame_is_isolated(store: Bindings, invalid: ReadStep, other: ReadStep)
    requires
        turn(store, invalid).1 == SessionMove::Reply(bare(PACKET_INVALID)),
    ensures
        turn(store, invalid).0 == store,
        turn(turn(store, invalid).0, other) == turn(store, other),
{
    if let ReadStep::Deliver { tag, payload } = invalid {
        assert(served(store, tag, payload).1[0] == PACKET_INVALID);
    }
}

} // verus!
