//! Reading one frame from a stream that delivers it in chunks. The reader
//! holds the bytes received so far; the caller reads the stream and hands
//! each chunk over.

use crate::protocol::{
    decode_packet, decoded, frame, frame_complete, frameable, is_no_value_tag,
    lemma_be32_round_trip, lemma_frame_round_trip, no_value_tag, read_be32,
    PacketError, PACKET_BYTE_LIMIT,
};
use vstd::prelude::*;

verus! {

/// What the caller of a reader does next.
#[derive(Debug)]
pub enum ReadAction {
    /// The frame is not complete: read the stream again.
    ReadMore,
    /// A frame has been read.
    Deliver { tag: u8, payload: Vec<u8> },
    /// No frame could be read.
    Fail(PacketError),
}

/// A `ReadAction` with its bytes as a sequence.
pub enum ReadStep {
    ReadMore,
    Deliver { tag: u8, payload: Seq<u8> },
    Fail(PacketError),
}

impl View for ReadAction {
    type V = ReadStep;

    open spec fn view(&self) -> ReadStep {
        match *self {
            ReadAction::ReadMore => ReadStep::ReadMore,
            ReadAction::Deliver { tag, payload } => ReadStep::Deliver { tag, payload: payload@ },
            ReadAction::Fail(e) => ReadStep::Fail(e),
        }
    }
}

/// The step that ends the reading of `received`.
pub open spec fn finished(received: Seq<u8>) -> ReadStep {
    match decoded(received) {
        Ok((tag, payload)) => ReadStep::Deliver { tag, payload },
        Err(e) => ReadStep::Fail(e),
    }
}

/// The step after the stream ended with `received` in hand: nothing received
/// is a clean close, anything else is a frame cut short.
pub open spec fn at_end(received: Seq<u8>) -> ReadStep {
    if received.len() == 0 {
        ReadStep::Fail(PacketError::NoDataReceived)
    } else {
        finished(received)
    }
}

/// The bytes held and the step taken after `chunk` arrived with `received`
/// in hand. A read of no bytes is the end of the stream. A reader that
/// delivers or fails holds nothing afterwards.
pub open spec fn after_chunk(received: Seq<u8>, chunk: Seq<u8>) -> (Seq<u8>, ReadStep) {
    if chunk.len() == 0 {
        (Seq::<u8>::empty(), at_end(received))
    } else if frame_complete(received + chunk) {
        (Seq::<u8>::empty(), finished(received + chunk))
    } else {
        (received + chunk, ReadStep::ReadMore)
    }
}

/// Collects the chunks of one frame.
#[derive(Debug)]
pub struct FrameReader {
    buffer: Vec<u8>,
}

impl View for FrameReader {
    type V = Seq<u8>;

    closed spec fn view(&self) -> Seq<u8> {
        self.buffer@
    }
}

impl FrameReader {
    /// A reader that has received nothing.
    pub fn new() -> (reader: Self)
        ensures
            reader@ == Seq::<u8>::empty(),
    {
        FrameReader { buffer: Vec::new() }
    }

    /// Whether the bytes in hand hold all of their frame.
    fn complete(&self) -> (b: bool)
        ensures
            b == frame_complete(self@),
    {
        let n = self.buffer.len();
        if n == 0 {
            return false;
        }
        if no_value_tag(self.buffer[0]) {
            return true;
        }
        if n < 5 {
            return false;
        }
        let length = read_be32(self.buffer[1], self.buffer[2], self.buffer[3], self.buffer[4]);
        length > PACKET_BYTE_LIMIT || n - 5 >= length as usize
    }

    /// Ends the reading of what is in hand.
    fn finish(&mut self) -> (action: ReadAction)
        ensures
            action@ == finished(old(self)@),
            final(self)@ == Seq::<u8>::empty(),
    {
        let action = match decode_packet(self.buffer.as_slice()) {
            Ok((tag, payload)) => ReadAction::Deliver { tag, payload },
            Err(e) => ReadAction::Fail(e),
        };
        self.buffer.clear();
        action
    }

    /// Takes what one read of the stream delivered: `chunk` is the part of
    /// the read buffer that was filled, empty where the read returned 0.
    pub fn feed(&mut self, chunk: &[u8]) -> (action: ReadAction)
        ensures
            final(self)@ == after_chunk(old(self)@, chunk@).0,
            action@ == after_chunk(old(self)@, chunk@).1,
    {
        if chunk.len() == 0 {
            if self.buffer.len() == 0 {
                return ReadAction::Fail(PacketError::NoDataReceived);
            }
            return self.finish();
        }
        self.buffer.extend_from_slice(chunk);
        assert(self@ =~= old(self)@ + chunk@);
        if self.complete() {
            self.finish()
        } else {
            ReadAction::ReadMore
        }
    }

    /// Takes the failure of a read of the stream.
    pub fn fail(&mut self) -> (action: ReadAction)
        ensures
            action@ == ReadStep::Fail(PacketError::ReadFailed),
            final(self)@ == Seq::<u8>::empty(),
    {
        self.buffer.clear();
        ReadAction::Fail(PacketError::ReadFailed)
    }
}

/// A reader that asks for more holds less than a head and the largest
/// payload.
pub proof fn lemma_reader_holds_less_than_a_frame(received: Seq<u8>, chunk: Seq<u8>)
    requires
        after_chunk(received, chunk).1 is ReadMore,
    ensures
        after_chunk(received, chunk).0.len() < 5 + PACKET_BYTE_LIMIT,
{
}

/// A frame that arrives whole is delivered with its tag and payload at once.
pub proof fn lemma_whole_frame_is_delivered(tag: u8, payload: Seq<u8>)
    requires
        frameable(tag, payload),
    ensures
        after_chunk(Seq::<u8>::empty(), frame(tag, payload)) == (
            Seq::<u8>::empty(),
            ReadStep::Deliver { tag, payload },
        ),
{
    lemma_frame_round_trip(tag, payload);
}

/// While bytes of a frame with a payload are still missing, the reader asks
/// for more: no proper prefix of the frame is complete.
pub proof fn lemma_partial_frame_is_incomplete(tag: u8, payload: Seq<u8>, n: int)
    requires
        frameable(tag, payload),
        !is_no_value_tag(tag),
        0 <= n < frame(tag, payload).len(),
    ensures
        !frame_complete(frame(tag, payload).take(n)),
{
    lemma_be32_round_trip(payload.len() as u32);
}

/// What a reader that holds `received` makes of `chunks`, read one after the
/// other: it takes them until one of them ends the reading.
pub open spec fn after_chunks(received: Seq<u8>, chunks: Seq<Seq<u8>>) -> (Seq<u8>, ReadStep)
    decreases chunks.len(),
{
    if chunks.len() == 0 {
        (received, ReadStep::ReadMore)
    } else {
        let (held, step) = after_chunk(received, chunks.first());
        if step is ReadMore {
            after_chunks(held, chunks.drop_first())
        } else {
            (held, step)
        }
    }
}

/// A tag with an empty payload is delivered with the first read, whatever
/// comes with it.
pub proof fn lemma_bare_tag_is_delivered(chunk: Seq<u8>)
    requires
        chunk.len() > 0,
        is_no_value_tag(chunk[0]),
    ensures
        after_chunk(Seq::<u8>::empty(), chunk) == (
            Seq::<u8>::empty(),
            ReadStep::Deliver { tag: chunk[0], payload: Seq::<u8>::empty() },
        ),
{
    assert(Seq::<u8>::empty().take(0) =~= Seq::<u8>::empty());
}

/// A frame with a payload is delivered however the stream cuts it into
/// reads: the reader asks for more until the last of its bytes is in, and
/// then delivers its tag and payload.
pub proof fn lemma_chunked_frame_is_delivered(
    tag: u8,
    payload: Seq<u8>,
    received: Seq<u8>,
    chunks: Seq<Seq<u8>>,
)
    requires
        frameable(tag, payload),
        !is_no_value_tag(tag),
        chunks.len() > 0,
        forall|i: int| 0 <= i < chunks.len() ==> (#[trigger] chunks[i]).len() > 0,
        received + chunks.flatten() == frame(tag, payload),
    ensures
        after_chunks(received, chunks) == (
            Seq::<u8>::empty(),
            ReadStep::Deliver { tag, payload },
        ),
    decreases chunks.len(),
{
    let whole = frame(tag, payload);
    let first = chunks.first();
    let rest = chunks.drop_first();
    let held = received + first;
    assert(held + rest.flatten() =~= whole);
    if rest.len() == 0 {
        lemma_frame_round_trip(tag, payload);
    } else {
        lemma_partial_frame_is_incomplete(tag, payload, held.len() as int);
        lemma_chunked_frame_is_delivered(tag, payload, held, rest);
    }
}

} // verus!
