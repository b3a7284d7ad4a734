//! The peer wire protocol: messages between daemons and their framing.
//!
//! A frame is a four-byte big-endian length followed by that many bytes of
//! payload. A declared length above [`MAX_FRAME_SIZE`] is refused before any
//! payload is read.
use vstd::prelude::*;
use vstd::string::*;
use crate::types::{MessageId, PeerId, Timestamp};

verus! {

/// Largest payload a frame may carry, in bytes.
pub const MAX_FRAME_SIZE: u32 = 1048576;

/// Why a frame could not be read or written.
#[derive(Debug)]
pub enum ProtocolError {
    /// The stream failed, or ended inside a payload.
    Io(String),
    /// A message could not be turned into a payload.
    Encode(String),
    /// A payload is not a message.
    Decode(String),
    /// The declared length exceeds the largest frame.
    FrameTooLarge { size: u32 },
    /// The peer closed the stream where a frame would begin.
    ConnectionClosed,
}

/// A message between two daemons.
#[derive(Debug, Clone)]
pub enum PeerMessage {
    /// A chat message.
    Chat {
        id: MessageId,
        sender_id: PeerId,
        sender_name: String,
        content: String,
        timestamp: Timestamp,
    },
    /// Confirms that the chat message `message_id` arrived.
    Ack { message_id: MessageId },
    /// Asks for a `Pong`.
    Ping,
    /// Answers a `Ping`.
    Pong,
}

/// The four bytes of `n`, most significant first.
pub open spec fn be_bytes(n: u32) -> Seq<u8> {
    seq![(n >> 24u32) as u8, ((n >> 16u32) & 0xffu32) as u8, ((n >> 8u32) & 0xffu32) as u8, (n & 0xffu32) as u8]
}

/// The number whose big-endian bytes are `b0 b1 b2 b3`.
pub open spec fn be_value(b0: u8, b1: u8, b2: u8, b3: u8) -> u32 {
    ((b0 as u32) << 24u32) | ((b1 as u32) << 16u32) | ((b2 as u32) << 8u32) | (b3 as u32)
}

/// The length that a buffer of at least four bytes declares.
pub open spec fn declared_len(b: Seq<u8>) -> u32 {
    be_value(b[0], b[1], b[2], b[3])
}

/// The frame carrying `payload`.
pub open spec fn framed(payload: Seq<u8>) -> Seq<u8> {
    be_bytes(payload.len() as u32) + payload
}

/// How reading a length prefix from a stream that delivers `b` and then
/// ends comes out.
pub enum PrefixOutcome {
    /// The stream ended before any byte: the peer closed the connection.
    Closed,
    /// The stream ended inside the prefix.
    Truncated,
    /// The prefix declares a length above the largest frame.
    TooLarge(u32),
    /// The prefix declares this payload length.
    Length(u32),
}

/// What reading one frame's prefix from a stream that delivers `b` gives.
pub open spec fn frame_result(b: Seq<u8>) -> PrefixOutcome {
    if b.len() == 0 {
        PrefixOutcome::Closed
    } else if b.len() < 4 {
        PrefixOutcome::Truncated
    } else if declared_len(b) > MAX_FRAME_SIZE {
        PrefixOutcome::TooLarge(declared_len(b))
    } else {
        PrefixOutcome::Length(declared_len(b))
    }
}

/// `r` reports the prefix outcome `o`: a truncated prefix is an I/O error,
/// never a closed connection.
pub open spec fn reports(o: PrefixOutcome, r: Result<u32, ProtocolError>) -> bool {
    match o {
        PrefixOutcome::Closed => r matches Err(ProtocolError::ConnectionClosed),
        PrefixOutcome::Truncated => r matches Err(ProtocolError::Io(_)),
        PrefixOutcome::TooLarge(n) => r matches Err(ProtocolError::FrameTooLarge { size }) && size == n,
        PrefixOutcome::Length(n) => r == Ok::<u32, ProtocolError>(n),
    }
}

proof fn lemma_be_round_trip(n: u32)
    ensures
        be_value(be_bytes(n)[0], be_bytes(n)[1], be_bytes(n)[2], be_bytes(n)[3]) == n,
{
    let b0 = (n >> 24u32) as u8;
    let b1 = ((n >> 16u32) & 0xffu32) as u8;
    let b2 = ((n >> 8u32) & 0xffu32) as u8;
    let b3 = (n & 0xffu32) as u8;
    assert(((b0 as u32) << 24u32) | ((b1 as u32) << 16u32) | ((b2 as u32) << 8u32) | (b3 as u32)
        == n) by (bit_vector)
        requires
            b0 == (n >> 24u32) as u8,
            b1 == ((n >> 16u32) & 0xffu32) as u8,
            b2 == ((n >> 8u32) & 0xffu32) as u8,
            b3 == (n & 0xffu32) as u8,
    ;
}

/// The frame that carries `payload`: its length in four big-endian bytes,
/// then the payload.
pub fn encode_frame(payload: &[u8]) -> (r: Vec<u8>)
    requires
        payload@.len() <= u32::MAX,
    ensures
        r@ == framed(payload@),
        r@.len() == payload@.len() + 4,
{
    let n = payload.len() as u32;
    let mut frame: Vec<u8> = Vec::new();
    frame.push((n >> 24u32) as u8);
    frame.push(((n >> 16u32) & 0xffu32) as u8);
    frame.push(((n >> 8u32) & 0xffu32) as u8);
    frame.push((n & 0xffu32) as u8);
    let mut i: usize = 0;
    while i < payload.len()
        invariant
            i <= payload@.len(),
            n == payload@.len(),
            frame@ == be_bytes(n) + payload@.subrange(0, i as int),
        decreases payload@.len() - i,
    {
        frame.push(payload[i]);
        assert(payload@.subrange(0, i + 1) =~= payload@.subrange(0, i as int).push(payload@[i as int]));
        assert(frame@ =~= be_bytes(n) + payload@.subrange(0, i + 1));
        i = i + 1;
    }
    assert(payload@.subrange(0, i as int) =~= payload@);
    frame
}

/// The payload length that a frame's prefix declares. `prefix` is what the
/// stream delivered of the four prefix bytes before it ended: none at all
/// means the peer closed the connection, one to three is an I/O error.
pub fn frame_length(prefix: &[u8]) -> (r: Result<u32, ProtocolError>)
    requires
        prefix@.len() <= 4,
    ensures
        reports(frame_result(prefix@), r),
{
    if prefix.len() == 0 {
        return Err(ProtocolError::ConnectionClosed);
    }
    if prefix.len() < 4 {
        return Err(ProtocolError::Io(String::from_str("stream ended inside a frame's length prefix")));
    }
    let n = ((prefix[0] as u32) << 24u32) | ((prefix[1] as u32) << 16u32) | ((prefix[2] as u32)
        << 8u32) | (prefix[3] as u32);
    if n > MAX_FRAME_SIZE {
        Err(ProtocolError::FrameTooLarge { size: n })
    } else {
        Ok(n)
    }
}

/// The first frame of `buf`, the bytes a stream delivered before it ended:
/// the payload is `buf[4 .. 4 + n]` for the `n` returned. A stream that ends
/// before any byte is a closed connection; one that ends inside the prefix
/// or inside the payload is an I/O error.
pub fn next_frame(buf: &[u8]) -> (r: Result<u32, ProtocolError>)
    ensures
        match frame_result(buf@) {
            PrefixOutcome::Length(n) => if buf@.len() >= 4 + n {
                r == Ok::<u32, ProtocolError>(n)
            } else {
                r matches Err(ProtocolError::Io(_))
            },
            o => reports(o, r),
        },
{
    if buf.len() == 0 {
        return Err(ProtocolError::ConnectionClosed);
    }
    if buf.len() < 4 {
        return Err(ProtocolError::Io(String::from_str("stream ended inside a frame's length prefix")));
    }
    let n = ((buf[0] as u32) << 24u32) | ((buf[1] as u32) << 16u32) | ((buf[2] as u32) << 8u32)
        | (buf[3] as u32);
    if n > MAX_FRAME_SIZE {
        return Err(ProtocolError::FrameTooLarge { size: n });
    }
    if buf.len() - 4 < n as usize {
        return Err(ProtocolError::Io(String::from_str("stream ended inside a frame's payload")));
    }
    Ok(n)
}

/// A frame made by `encode_frame` reads back as its payload, whenever the
/// payload is within the size limit.
pub proof fn law_frame_round_trip(payload: Seq<u8>)
    requires
        payload.len() <= MAX_FRAME_SIZE,
    ensures
        frame_result(framed(payload)) == PrefixOutcome::Length(payload.len() as u32),
        framed(payload).len() == 4 + payload.len(),
        framed(payload).subrange(4, 4 + payload.len() as int) == payload,
{
    let f = framed(payload);
    lemma_be_round_trip(payload.len() as u32);
    assert(f[0] == be_bytes(payload.len() as u32)[0]);
    assert(f[1] == be_bytes(payload.len() as u32)[1]);
    assert(f[2] == be_bytes(payload.len() as u32)[2]);
    assert(f[3] == be_bytes(payload.len() as u32)[3]);
    assert(f.subrange(4, 4 + payload.len() as int) =~= payload);
}

/// What the receiving side of a connection does with one frame: the reply
/// it writes back on the same connection, and whether the message goes on
/// to the daemon.
pub open spec fn frame_response(m: PeerMessage) -> (Option<PeerMessage>, bool) {
    match m {
        PeerMessage::Chat { id, .. } => (Some(PeerMessage::Ack { message_id: id }), true),
        PeerMessage::Ack { .. } => (None, true),
        PeerMessage::Ping => (Some(PeerMessage::Pong), false),
        PeerMessage::Pong => (None, false),
    }
}

/// The reply to write for an inbound message, and whether to forward it: a
/// chat is acknowledged with its own identity and forwarded, a ping is
/// answered with a pong, a pong is dropped, an ack is forwarded.
pub fn respond_to_frame(msg: &PeerMessage) -> (r: (Option<PeerMessage>, bool))
    ensures
        r == frame_response(*msg),
{
    match msg {
        PeerMessage::Chat { id, .. } => (Some(PeerMessage::Ack { message_id: id.clone() }), true),
        PeerMessage::Ack { .. } => (None, true),
        PeerMessage::Ping => (Some(PeerMessage::Pong), false),
        PeerMessage::Pong => (None, false),
    }
}

} // verus!
