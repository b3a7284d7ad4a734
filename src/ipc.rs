//! The local control protocol between the daemon and its clients, and the
//! decisions of one control connection.
//!
//! Each request and each response travels as one line of text. A connection
//! answers unreadable lines with an `invalid_request` error and keeps going,
//! handles `Subscribe` itself, and hands every other request to the daemon.
use vstd::prelude::*;
use vstd::string::*;
use crate::types::{Message, MessageId, PeerId, PeerInfo, Timestamp};

verus! {

/// Events the bus holds for a subscriber that has not read them yet;
/// beyond that the oldest are dropped and the subscriber told how many.
pub const EVENT_BUS_CAPACITY: usize = 256;

/// Longest control line, in bytes.
pub const MAX_IPC_LINE_LENGTH: usize = 1048576;

/// Why a control line could not be read or written.
#[derive(Debug)]
pub enum IpcError {
    /// The connection failed.
    Io(String),
    /// The line is not a well-formed request or response.
    Json(String),
    /// The line exceeds the longest allowed.
    LineTooLong { size: usize, max: usize },
}

/// A request from a client to the daemon.
#[derive(Debug, Clone)]
pub enum ClientRequest {
    ListPeers,
    GetMessages { peer_id: PeerId, limit: u32, before: Option<Timestamp> },
    SendMessage { peer_id: PeerId, content: String },
    GetConfig,
    SetDisplayName { name: String },
    Subscribe,
}

/// A reply or a pushed event from the daemon to a client.
#[derive(Debug, Clone)]
pub enum ServerMessage {
    /// The request succeeded; nothing more to say.
    Done,
    PeerList { peers: Vec<PeerInfo> },
    Messages { messages: Vec<Message> },
    MessageSent { message_id: MessageId },
    NewMessage { message: Message },
    PeerOnline { peer: PeerInfo },
    PeerOffline { peer_id: PeerId },
    MessageDelivered { message_id: MessageId },
    Config { display_name: String, peer_id: PeerId },
    Error { code: String, message: String },
}

/// `m` is an error reply with the code `code`.
pub open spec fn is_error_with(m: ServerMessage, code: Seq<char>) -> bool {
    m matches ServerMessage::Error { code: c, .. } && c@ == code
}

/// `m` is one of the events pushed to subscribers.
pub open spec fn is_pushed_event(m: ServerMessage) -> bool {
    ||| m is PeerOnline
    ||| m is PeerOffline
    ||| m is NewMessage
    ||| m is MessageDelivered
}

/// An error reply.
pub fn error_reply(code: &str, message: String) -> (r: ServerMessage)
    ensures
        r matches ServerMessage::Error { code: c, message: m } && c@ == code@ && m@ == message@,
{
    ServerMessage::Error { code: String::from_str(code), message }
}

/// Whether a line of `size` bytes may be read.
pub fn check_line_length(size: usize) -> (r: Result<(), IpcError>)
    ensures
        r is Ok <==> size <= MAX_IPC_LINE_LENGTH,
        r matches Err(e) ==> e == (IpcError::LineTooLong { size, max: MAX_IPC_LINE_LENGTH }),
{
    if size > MAX_IPC_LINE_LENGTH {
        Err(IpcError::LineTooLong { size, max: MAX_IPC_LINE_LENGTH })
    } else {
        Ok(())
    }
}

/// What a control connection does with one line or event.
#[derive(Debug)]
pub enum ControlAction {
    /// Write this message to the client.
    Reply(ServerMessage),
    /// Attach a receiver of the event bus, then write `Ok` to the client.
    Subscribe,
    /// Hand this request to the daemon; its reply goes to the client.
    Forward(ClientRequest),
    /// Keep going without writing anything.
    Skip,
    /// End the connection.
    Close,
}

/// What the event bus handed to a subscribed connection.
#[derive(Debug)]
pub enum BusEvent {
    /// The next event.
    Event(ServerMessage),
    /// This many events were dropped because the client fell behind.
    Lagged(u64),
    /// The bus is gone.
    Closed,
}

/// The state of one control connection.
#[derive(Debug)]
pub struct ControlSession {
    pub subscribed: bool,
}

impl ControlSession {
    /// A new connection, not subscribed.
    pub fn new() -> (r: Self)
        ensures
            !r.subscribed,
    {
        ControlSession { subscribed: false }
    }

    /// The action for one line read from the client, given as the request
    /// it holds or the reason it holds none.
    pub fn on_line(&mut self, line: Result<ClientRequest, String>) -> (r: ControlAction)
        ensures
            final(self).subscribed == (old(self).subscribed || line matches Ok(
                ClientRequest::Subscribe,
            )),
            match line {
                Err(_) => r matches ControlAction::Reply(m) && is_error_with(
                    m,
                    "invalid_request"@,
                ),
                Ok(ClientRequest::Subscribe) => if old(self).subscribed {
                    r matches ControlAction::Reply(ServerMessage::Done)
                } else {
                    r is Subscribe
                },
                Ok(req) => r == ControlAction::Forward(req),
            },
    {
        match line {
            Err(reason) => {
                let text = String::from_str("failed to parse request: ").concat(reason.as_str());
                ControlAction::Reply(error_reply("invalid_request", text))
            },
            Ok(ClientRequest::Subscribe) => {
                if self.subscribed {
                    ControlAction::Reply(ServerMessage::Done)
                } else {
                    self.subscribed = true;
                    ControlAction::Subscribe
                }
            },
            Ok(req) => ControlAction::Forward(req),
        }
    }

    /// The action for what the event bus handed over: an event is written
    /// to the client, a lag is only noted, a closed bus ends the connection.
    pub fn on_bus_event(&self, ev: BusEvent) -> (r: ControlAction)
        ensures
            match ev {
                BusEvent::Event(m) => r == ControlAction::Reply(m),
                BusEvent::Lagged(_) => r is Skip,
                BusEvent::Closed => r is Close,
            },
    {
        match ev {
            BusEvent::Event(m) => ControlAction::Reply(m),
            BusEvent::Lagged(_) => ControlAction::Skip,
            BusEvent::Closed => ControlAction::Close,
        }
    }
}

} // verus!
