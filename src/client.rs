//! Decisions of the outbound client: whether a peer's answer acknowledges
//! what was sent, and which address to try next.
//!
//! Sending itself (connect, write one frame, read one frame, each under a
//! timeout) is the caller's I/O; these functions decide on its results.
use vstd::prelude::*;
use crate::protocol::{PeerMessage, ProtocolError};

verus! {

/// Seconds allowed for a connection to open.
pub const CONNECT_TIMEOUT_SECS: u64 = 5;

/// Seconds allowed for the answer to arrive.
pub const ACK_TIMEOUT_SECS: u64 = 10;

/// Why a message could not be delivered.
#[derive(Debug)]
pub enum ClientError {
    /// The connection did not open in time.
    ConnectTimeout { addr: String, timeout_secs: u64 },
    /// The connection was refused or failed.
    Connect { addr: String, reason: String },
    /// No answer arrived in time.
    AckTimeout { addr: String },
    /// Writing or reading a frame failed.
    Protocol(ProtocolError),
    /// The answer was not the expected acknowledgment.
    UnexpectedResponse { addr: String },
    /// There was no address to try.
    NoAddress,
}

/// `response` acknowledges `sent`: for a chat, an ack of the same identity;
/// for any other message, any well-formed answer.
pub open spec fn acknowledges(sent: PeerMessage, response: PeerMessage) -> bool {
    match sent {
        PeerMessage::Chat { id, .. } => match response {
            PeerMessage::Ack { message_id } => message_id@ == id@,
            _ => false,
        },
        _ => true,
    }
}

/// The outcome of one send to `addr`, given the answer read back.
pub fn check_response(addr: &str, sent: &PeerMessage, response: &PeerMessage) -> (r: Result<
    (),
    ClientError,
>)
    ensures
        r is Ok <==> acknowledges(*sent, *response),
        r matches Err(e) ==> e matches ClientError::UnexpectedResponse { addr: a } && a@ == addr@,
{
    let ok = match sent {
        PeerMessage::Chat { id, .. } => match response {
            PeerMessage::Ack { message_id } => *message_id == *id,
            _ => false,
        },
        _ => true,
    };
    if ok {
        Ok(())
    } else {
        Err(ClientError::UnexpectedResponse { addr: addr.to_string() })
    }
}

/// What to do next while sending one message to a peer's addresses in turn.
#[derive(Debug)]
pub enum SendStep {
    /// Try the address at this index.
    Try(usize),
    /// Stop with this outcome.
    Done(Result<(), ClientError>),
}

/// The next step after `tried` addresses out of `n_addresses` were tried,
/// `last` being the outcome of the latest try. Addresses are tried in
/// order; the first success ends the send; when all have failed the last
/// error is the outcome; with no address at all the outcome is `NoAddress`.
pub fn next_send_step(n_addresses: usize, tried: usize, last: Option<Result<(), ClientError>>) -> (r:
    SendStep)
    requires
        tried <= n_addresses,
        tried == 0 <==> last is None,
    ensures
        n_addresses == 0 ==> r matches SendStep::Done(Err(ClientError::NoAddress)),
        last matches Some(Ok(())) ==> r matches SendStep::Done(Ok(())),
        (n_addresses > 0 && !(last matches Some(Ok(()))) && tried < n_addresses) ==> r
            == SendStep::Try(tried),
        (n_addresses > 0 && tried == n_addresses && last matches Some(Err(_))) ==> r
            == SendStep::Done(last.unwrap()),
{
    if n_addresses == 0 {
        return SendStep::Done(Err(ClientError::NoAddress));
    }
    match last {
        Some(Ok(())) => SendStep::Done(Ok(())),
        Some(Err(e)) => if tried < n_addresses {
            SendStep::Try(tried)
        } else {
            SendStep::Done(Err(e))
        },
        None => SendStep::Try(0),
    }
}

} // verus!
