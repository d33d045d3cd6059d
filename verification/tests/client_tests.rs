use rstore::client::{
    clear_request, clear_response, delete_request, delete_response, get_request, get_response,
    ping_request, ping_response, read_failure, set_request, set_response, ClientError,
    ConnectionConfig,
};
use rstore::engine::KVEngine;
use rstore::protocol::{
    PacketError, CLEAR_OK, DELETE_OK, ERROR, GET_OK, PACKET_INVALID, PONG, SET_OK,
};
use rstore::reader::{FrameReader, ReadAction};
use rstore::record::{DeleteRequest, GetRequest, GetResponse, SetRequest};
use rstore::session::{take_turn, SessionAction};

fn round_trip(engine: &mut KVEngine, request: &[u8]) -> (u8, Vec<u8>) {
    let mut server = FrameReader::new();
    let answer = match take_turn(Ok(engine), server.feed(request)) {
        SessionAction::Reply(bytes) => bytes,
        other => panic!("no reply: {:?}", other),
    };
    let mut client = FrameReader::new();
    match client.feed(&answer) {
        ReadAction::Deliver { tag, payload } => (tag, payload),
        other => panic!("no frame: {:?}", other),
    }
}

#[test]
fn new_config_has_the_defaults() {
    let config = ConnectionConfig::new("0.0.0.0".to_string(), 13535);
    assert_eq!(config.host, "0.0.0.0");
    assert_eq!(config.port, 13535);
    assert_eq!(config.min_connections, 1);
    assert_eq!(config.max_connections, 10);
    assert_eq!(config.connection_timeout, 30_000);
    assert_eq!(config.idle_timeout, 60_000);
}

#[test]
fn default_config_has_no_host() {
    let config = ConnectionConfig::default();
    assert_eq!(config.host, "");
    assert_eq!(config.port, 0);
    assert_eq!(config.min_connections, 1);
    assert_eq!(config.max_connections, 10);
    assert_eq!(config.connection_timeout, 30_000);
    assert_eq!(config.idle_timeout, 60_000);
}

#[test]
fn request_frames() {
    assert_eq!(ping_request(), vec![0x01, 0, 0, 0, 0]);
    assert_eq!(clear_request(), vec![0x05, 0, 0, 0, 0]);
    assert_eq!(
        get_request(&GetRequest { key: "ab".to_string() }),
        vec![0x03, 0, 0, 0, 6, 0, 0, 0, 2, b'a', b'b']
    );
    assert_eq!(
        delete_request(&DeleteRequest { key: "ab".to_string() }),
        vec![0x04, 0, 0, 0, 6, 0, 0, 0, 2, b'a', b'b']
    );
    assert_eq!(
        set_request(&SetRequest { key: "a".to_string(), value: "bc".to_string() }),
        vec![0x02, 0, 0, 0, 11, 0, 0, 0, 1, b'a', 0, 0, 0, 2, b'b', b'c']
    );
}

#[test]
fn success_tags_are_accepted() {
    assert_eq!(ping_response(PONG), Ok(()));
    assert_eq!(set_response(SET_OK), Ok(()));
    assert_eq!(delete_response(DELETE_OK), Ok(()));
    assert_eq!(clear_response(CLEAR_OK), Ok(()));
}

#[test]
fn other_tags_are_protocol_errors() {
    for tag in [ERROR, PACKET_INVALID, 0xf6, 0x00, GET_OK] {
        assert_eq!(ping_response(tag), Err(ClientError::InvalidResponseTag));
        assert_eq!(set_response(tag), Err(ClientError::InvalidResponseTag));
        assert_eq!(delete_response(tag), Err(ClientError::InvalidResponseTag));
        assert_eq!(clear_response(tag), Err(ClientError::InvalidResponseTag));
    }
    assert_eq!(set_response(PONG), Err(ClientError::InvalidResponseTag));
    for tag in [ERROR, PACKET_INVALID, 0xf6, PONG, SET_OK] {
        assert!(matches!(get_response(tag, &[0, 0, 0, 0]), Err(ClientError::InvalidResponseTag)));
    }
}

#[test]
fn get_response_carries_the_value() {
    let payload = GetResponse { value: "world".to_string() }.encode();
    assert_eq!(get_response(GET_OK, &payload).unwrap().value, "world");
}

#[test]
fn get_response_that_cannot_be_decoded() {
    assert!(matches!(get_response(GET_OK, &[]), Err(ClientError::ConnectionError)));
    assert!(matches!(get_response(GET_OK, &[0, 0, 0, 5, 1]), Err(ClientError::ConnectionError)));
}

#[test]
fn unreadable_answers_are_connection_errors() {
    for error in [
        PacketError::EmptyTag,
        PacketError::ReadFailed,
        PacketError::NoDataReceived,
        PacketError::OversizedFrame,
        PacketError::DecodeFailed,
    ] {
        assert_eq!(read_failure(error), ClientError::ConnectionError);
    }
}

#[test]
fn client_and_session_set_then_get() {
    let mut engine = KVEngine::new();
    let (tag, _) = round_trip(&mut engine, &ping_request());
    assert_eq!(ping_response(tag), Ok(()));
    let set = set_request(&SetRequest { key: "hello".to_string(), value: "world".to_string() });
    let (tag, _) = round_trip(&mut engine, &set);
    assert_eq!(set_response(tag), Ok(()));
    let get = get_request(&GetRequest { key: "hello".to_string() });
    let (tag, payload) = round_trip(&mut engine, &get);
    assert_eq!(get_response(tag, &payload).unwrap().value, "world");
}

#[test]
fn client_and_session_overwrite_delete_clear() {
    let mut engine = KVEngine::new();
    let key = || "k".to_string();
    for value in ["v1", "v2"] {
        let set = set_request(&SetRequest { key: key(), value: value.to_string() });
        let (tag, _) = round_trip(&mut engine, &set);
        assert_eq!(set_response(tag), Ok(()));
    }
    let (tag, payload) = round_trip(&mut engine, &get_request(&GetRequest { key: key() }));
    assert_eq!(get_response(tag, &payload).unwrap().value, "v2");
    let (tag, _) = round_trip(&mut engine, &delete_request(&DeleteRequest { key: key() }));
    assert_eq!(delete_response(tag), Ok(()));
    let (tag, payload) = round_trip(&mut engine, &get_request(&GetRequest { key: key() }));
    assert!(matches!(get_response(tag, &payload), Err(ClientError::InvalidResponseTag)));
    let (tag, _) = round_trip(&mut engine, &delete_request(&DeleteRequest { key: key() }));
    assert_eq!(delete_response(tag), Err(ClientError::InvalidResponseTag));
    let set = set_request(&SetRequest { key: key(), value: "v3".to_string() });
    round_trip(&mut engine, &set);
    let (tag, _) = round_trip(&mut engine, &clear_request());
    assert_eq!(clear_response(tag), Ok(()));
    let (tag, payload) = round_trip(&mut engine, &get_request(&GetRequest { key: key() }));
    assert!(matches!(get_response(tag, &payload), Err(ClientError::InvalidResponseTag)));
}

#[test]
fn value_at_the_soft_limits_goes_through() {
    let mut engine = KVEngine::new();
    let key = "k".repeat(1024 * 1024);
    let value = "v".repeat(10 * 1024 * 1024);
    let set = set_request(&SetRequest { key: key.clone(), value: value.clone() });
    let (tag, _) = round_trip(&mut engine, &set);
    assert_eq!(set_response(tag), Ok(()));
    let (tag, payload) = round_trip(&mut engine, &get_request(&GetRequest { key }));
    assert_eq!(get_response(tag, &payload).unwrap().value, value);
}
