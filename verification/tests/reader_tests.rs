use rstore::protocol::{generate_packet, PacketError, GET, PING, PONG, SET};
use rstore::reader::{FrameReader, ReadAction};

fn delivered(action: ReadAction) -> (u8, Vec<u8>) {
    match action {
        ReadAction::Deliver { tag, payload } => (tag, payload),
        other => panic!("no frame: {:?}", other),
    }
}

fn failed(action: ReadAction) -> PacketError {
    match action {
        ReadAction::Fail(error) => error,
        other => panic!("no failure: {:?}", other),
    }
}

#[test]
fn whole_frame_in_one_chunk() {
    let mut reader = FrameReader::new();
    let packet = generate_packet(SET, &[1, 2, 3]);
    assert_eq!(delivered(reader.feed(&packet)), (SET, vec![1, 2, 3]));
}

#[test]
fn frame_in_single_bytes() {
    let mut reader = FrameReader::new();
    let packet = generate_packet(GET, &[7, 7, 7, 7]);
    for byte in &packet[..packet.len() - 1] {
        assert!(matches!(reader.feed(&[*byte]), ReadAction::ReadMore));
    }
    assert_eq!(delivered(reader.feed(&packet[packet.len() - 1..])), (GET, vec![7, 7, 7, 7]));
}

#[test]
fn frame_larger_than_a_chunk() {
    let mut reader = FrameReader::new();
    let payload: Vec<u8> = (0..5000u32).map(|i| (i % 251) as u8).collect();
    let packet = generate_packet(SET, &payload);
    let mut chunks = packet.chunks(1024);
    let last = chunks.next_back().unwrap();
    for chunk in chunks {
        assert!(matches!(reader.feed(chunk), ReadAction::ReadMore));
    }
    assert_eq!(delivered(reader.feed(last)), (SET, payload));
}

#[test]
fn bare_tag_is_delivered_at_once() {
    let mut reader = FrameReader::new();
    assert_eq!(delivered(reader.feed(&[PONG])), (PONG, vec![]));
}

#[test]
fn ping_with_its_length_is_delivered_without_payload() {
    let mut reader = FrameReader::new();
    assert_eq!(delivered(reader.feed(&[0x01, 0, 0, 0, 0])), (PING, vec![]));
}

#[test]
fn close_before_any_data() {
    let mut reader = FrameReader::new();
    assert_eq!(failed(reader.feed(&[])), PacketError::NoDataReceived);
}

#[test]
fn close_in_the_middle_of_a_payload() {
    let mut reader = FrameReader::new();
    assert!(matches!(reader.feed(&[SET, 0, 0, 0, 9, 1, 2]), ReadAction::ReadMore));
    assert_eq!(failed(reader.feed(&[])), PacketError::DecodeFailed);
    assert_eq!(failed(reader.feed(&[])), PacketError::NoDataReceived);
}

#[test]
fn close_in_the_middle_of_a_head() {
    let mut reader = FrameReader::new();
    assert!(matches!(reader.feed(&[GET, 0]), ReadAction::ReadMore));
    assert_eq!(failed(reader.feed(&[])), PacketError::DecodeFailed);
}

#[test]
fn oversized_head_fails_as_soon_as_it_is_in() {
    let mut reader = FrameReader::new();
    assert!(matches!(reader.feed(&[SET, 0x01, 0x40]), ReadAction::ReadMore));
    assert_eq!(failed(reader.feed(&[0x00, 0x01])), PacketError::OversizedFrame);
}

#[test]
fn failed_read_is_reported() {
    let mut reader = FrameReader::new();
    assert!(matches!(reader.feed(&[SET, 0, 0]), ReadAction::ReadMore));
    assert_eq!(failed(reader.fail()), PacketError::ReadFailed);
    assert_eq!(failed(reader.feed(&[])), PacketError::NoDataReceived);
}

#[test]
fn reader_starts_afresh_after_a_frame() {
    let mut reader = FrameReader::new();
    assert_eq!(delivered(reader.feed(&generate_packet(SET, &[1]))), (SET, vec![1]));
    assert_eq!(delivered(reader.feed(&generate_packet(GET, &[2, 3]))), (GET, vec![2, 3]));
    assert_eq!(failed(reader.feed(&[SET, 0xff, 0, 0, 0])), PacketError::OversizedFrame);
    assert_eq!(delivered(reader.feed(&[0x01, 0, 0, 0, 0])), (PING, vec![]));
}

#[test]
fn bytes_behind_the_frame_are_dropped() {
    let mut reader = FrameReader::new();
    assert_eq!(delivered(reader.feed(&[SET, 0, 0, 0, 1, 42, 43, 44])), (SET, vec![42]));
    assert!(matches!(reader.feed(&[GET]), ReadAction::ReadMore));
}
