//! Domain types shared by the daemon and the terminal client.
use vstd::prelude::*;
use vstd::string::*;
use crate::text::{all_ws, is_blank, trim, trimmed, utf8_len};

verus! {

/// Relies on uuid::Uuid::new_v4 for a random version-4 uuid, and on its
/// `Display`, which writes the hyphenated lower-case form: always 36
/// characters.
#[verifier::external_body]
fn random_uuid_text() -> (r: String)
    ensures
        r@.len() == 36,
{
    uuid::Uuid::new_v4().to_string()
}

/// Stable identifier of one installation of the messenger.
#[derive(Debug)]
pub struct PeerId(pub(crate) String);

impl View for PeerId {
    type V = Seq<char>;

    closed spec fn view(&self) -> Seq<char> {
        self.0@
    }
}

impl PeerId {
    /// Creates an identifier from its text.
    pub fn new(id: &str) -> (r: Self)
        ensures
            r@ == id@,
    {
        PeerId(String::from_str(id))
    }

    /// Generates a fresh random identifier.
    pub fn generate() -> (r: Self)
        ensures
            r@.len() == 36,
    {
        PeerId(random_uuid_text())
    }

    /// The identifier's text.
    pub fn as_str(&self) -> (r: &str)
        ensures
            r@ == self@,
    {
        self.0.as_str()
    }

    /// The identifier's text, as an owned string.
    pub fn to_string(&self) -> (r: String)
        ensures
            r@ == self@,
    {
        self.0.clone()
    }
}

impl Clone for PeerId {
    fn clone(&self) -> (r: Self)
        ensures
            r == *self,
    {
        PeerId(self.0.clone())
    }
}

impl PartialEq for PeerId {
    fn eq(&self, other: &PeerId) -> (r: bool) {
        self.0 == other.0
    }
}

impl vstd::std_specs::cmp::PartialEqSpecImpl for PeerId {
    open spec fn obeys_eq_spec() -> bool {
        true
    }

    open spec fn eq_spec(&self, other: &PeerId) -> bool {
        self@ == other@
    }
}

impl Eq for PeerId {}

/// Identifier of one message, chosen by its sender.
#[derive(Debug)]
pub struct MessageId(pub(crate) String);

impl View for MessageId {
    type V = Seq<char>;

    closed spec fn view(&self) -> Seq<char> {
        self.0@
    }
}

impl MessageId {
    /// Creates an identifier from its text.
    pub fn new(id: &str) -> (r: Self)
        ensures
            r@ == id@,
    {
        MessageId(String::from_str(id))
    }

    /// Generates a fresh random identifier.
    pub fn generate() -> (r: Self)
        ensures
            r@.len() == 36,
    {
        MessageId(random_uuid_text())
    }

    /// The identifier's text.
    pub fn as_str(&self) -> (r: &str)
        ensures
            r@ == self@,
    {
        self.0.as_str()
    }

    /// The identifier's text, as an owned string.
    pub fn to_string(&self) -> (r: String)
        ensures
            r@ == self@,
    {
        self.0.clone()
    }
}

impl Clone for MessageId {
    fn clone(&self) -> (r: Self)
        ensures
            r == *self,
    {
        MessageId(self.0.clone())
    }
}

impl PartialEq for MessageId {
    fn eq(&self, other: &MessageId) -> (r: bool) {
        self.0 == other.0
    }
}

impl vstd::std_specs::cmp::PartialEqSpecImpl for MessageId {
    open spec fn obeys_eq_spec() -> bool {
        true
    }

    open spec fn eq_spec(&self, other: &MessageId) -> bool {
        self@ == other@
    }
}

impl Eq for MessageId {}

/// Longest display name, in UTF-8 bytes.
pub const DISPLAY_NAME_MAX_LENGTH: usize = 50;

/// Longest message content, in UTF-8 bytes.
pub const MESSAGE_CONTENT_MAX_LENGTH: usize = 10000;

/// A valid display name: `s` has no surrounding whitespace and holds
/// between 1 and 50 bytes.
pub open spec fn valid_display_name(s: Seq<char>) -> bool {
    &&& trimmed(s) == s
    &&& s.len() > 0
    &&& utf8_len(s) <= DISPLAY_NAME_MAX_LENGTH
}

/// A valid message content: not all whitespace, at most 10 000 bytes.
pub open spec fn valid_message_content(s: Seq<char>) -> bool {
    &&& !all_ws(s)
    &&& utf8_len(s) <= MESSAGE_CONTENT_MAX_LENGTH
}

/// Human-readable name of a machine, trimmed and 1 to 50 bytes long.
#[derive(Debug)]
pub struct DisplayName(String);

/// Why a text is not a display name.
#[derive(Debug, PartialEq, Eq, Structural)]
pub enum DisplayNameError {
    Empty,
    TooLong { max: usize, got: usize },
}

impl View for DisplayName {
    type V = Seq<char>;

    closed spec fn view(&self) -> Seq<char> {
        self.0@
    }
}

impl DisplayName {
    pub const MAX_LENGTH: usize = 50;

    /// The display name that `name` gives once trimmed, or why there is none.
    pub fn new(name: &str) -> (r: Result<Self, DisplayNameError>)
        ensures
            match r {
                Ok(d) => d@ == trimmed(name@) && valid_display_name(d@),
                Err(DisplayNameError::Empty) => trimmed(name@).len() == 0,
                Err(DisplayNameError::TooLong { max, got }) => {
                    &&& trimmed(name@).len() > 0
                    &&& max == DISPLAY_NAME_MAX_LENGTH
                    &&& got == utf8_len(trimmed(name@))
                    &&& got > DISPLAY_NAME_MAX_LENGTH
                },
            },
            r.is_ok() <==> (trimmed(name@).len() > 0 && utf8_len(trimmed(name@))
                <= DISPLAY_NAME_MAX_LENGTH),
    {
        let t = trim(name);
        proof {
            crate::text::lemma_trimmed_idempotent(name@);
        }
        if t.as_str().is_empty() {
            return Err(DisplayNameError::Empty);
        }
        let len = t.as_str().len();
        if len > Self::MAX_LENGTH {
            return Err(DisplayNameError::TooLong { max: Self::MAX_LENGTH, got: len });
        }
        Ok(DisplayName(t))
    }

    /// The name's text.
    pub fn as_str(&self) -> (r: &str)
        ensures
            r@ == self@,
    {
        self.0.as_str()
    }
}

/// Text of a chat message: not all whitespace, at most 10 000 bytes.
#[derive(Debug)]
pub struct MessageContent(String);

/// Why a text is not a message content.
#[derive(Debug, PartialEq, Eq, Structural)]
pub enum MessageContentError {
    Empty,
    TooLong { max: usize, got: usize },
}

impl View for MessageContent {
    type V = Seq<char>;

    closed spec fn view(&self) -> Seq<char> {
        self.0@
    }
}

impl MessageContent {
    pub const MAX_LENGTH: usize = 10000;

    /// The message content `content`, unchanged, or why it is not one.
    pub fn new(content: &str) -> (r: Result<Self, MessageContentError>)
        ensures
            match r {
                Ok(c) => c@ == content@ && valid_message_content(c@),
                Err(MessageContentError::Empty) => all_ws(content@),
                Err(MessageContentError::TooLong { max, got }) => {
                    &&& !all_ws(content@)
                    &&& max == MESSAGE_CONTENT_MAX_LENGTH
                    &&& got == utf8_len(content@)
                    &&& got > MESSAGE_CONTENT_MAX_LENGTH
                },
            },
            r.is_ok() <==> valid_message_content(content@),
    {
        if is_blank(content) {
            return Err(MessageContentError::Empty);
        }
        let len = content.len();
        if len > Self::MAX_LENGTH {
            return Err(MessageContentError::TooLong { max: Self::MAX_LENGTH, got: len });
        }
        Ok(MessageContent(String::from_str(content)))
    }

    /// The content's text.
    pub fn as_str(&self) -> (r: &str)
        ensures
            r@ == self@,
    {
        self.0.as_str()
    }
}

/// Relies on chrono::Utc::now and DateTime::timestamp_millis: the current
/// time in milliseconds since the Unix epoch. `Utc::now` panics on a clock
/// set before the epoch, so what it returns is never negative.
#[verifier::external_body]
fn current_millis() -> (r: i64)
    ensures
        r >= 0,
{
    chrono::Utc::now().timestamp_millis()
}

/// A point in time, in milliseconds since the Unix epoch.
#[derive(Debug, Clone, Copy, PartialEq, Eq, Structural, PartialOrd, Ord)]
pub struct Timestamp(pub i64);

impl Timestamp {
    /// The time `millis` milliseconds after the epoch.
    pub fn from_millis(millis: i64) -> (r: Self)
        ensures
            r.0 == millis,
    {
        Timestamp(millis)
    }

    /// The current time.
    pub fn now() -> (r: Self)
        ensures
            r.0 >= 0,
    {
        Timestamp(current_millis())
    }

    /// The number of milliseconds since the epoch.
    pub fn as_millis(&self) -> (r: i64)
        ensures
            r == self.0,
    {
        self.0
    }
}

/// Whether a message was sent by this machine or received from a peer.
#[derive(Debug, Clone, Copy, PartialEq, Eq, Structural)]
pub enum Direction {
    Sent,
    Received,
}

/// The text under which a direction is stored.
pub open spec fn direction_text(d: Direction) -> Seq<char> {
    match d {
        Direction::Sent => seq!['s', 'e', 'n', 't'],
        Direction::Received => seq!['r', 'e', 'c', 'e', 'i', 'v', 'e', 'd'],
    }
}

impl Direction {
    /// The text under which this direction is stored.
    pub fn as_db_str(&self) -> (r: &'static str)
        ensures
            r@ == direction_text(*self),
    {
        match self {
            Direction::Sent => {
                proof {
                    reveal_strlit("sent");
                }
                "sent"
            },
            Direction::Received => {
                proof {
                    reveal_strlit("received");
                }
                "received"
            },
        }
    }

    /// The direction stored as `s`, or an error naming the text.
    pub fn from_db_str(s: &str) -> (r: Result<Self, String>)
        ensures
            match r {
                Ok(d) => direction_text(d) == s@,
                Err(e) => {
                    &&& s@ != direction_text(Direction::Sent)
                    &&& s@ != direction_text(Direction::Received)
                    &&& e@ == "invalid direction: '"@ + s@ + "'"@
                },
            },
    {
        if crate::text::text_eq(s, Direction::Sent.as_db_str()) {
            Ok(Direction::Sent)
        } else if crate::text::text_eq(s, Direction::Received.as_db_str()) {
            Ok(Direction::Received)
        } else {
            let e = String::from_str("invalid direction: '");
            let e = e.concat(s);
            Err(e.concat("'"))
        }
    }
}

/// What is known of a peer: identity, name, endpoints, last sighting, and
/// whether it is reachable now.
#[derive(Debug)]
pub struct PeerInfo {
    pub id: PeerId,
    pub display_name: String,
    pub addresses: Vec<String>,
    pub last_seen_at: Timestamp,
    pub online: bool,
}

/// The texts of a list of strings.
pub open spec fn texts(v: Seq<String>) -> Seq<Seq<char>> {
    v.map_values(|s: String| s@)
}

/// A peer as plain values.
pub struct PeerView {
    pub id: Seq<char>,
    pub display_name: Seq<char>,
    pub addresses: Seq<Seq<char>>,
    pub last_seen_at: i64,
    pub online: bool,
}

impl View for PeerInfo {
    type V = PeerView;

    open spec fn view(&self) -> PeerView {
        PeerView {
            id: self.id@,
            display_name: self.display_name@,
            addresses: texts(self.addresses@),
            last_seen_at: self.last_seen_at.0,
            online: self.online,
        }
    }
}

impl Clone for PeerInfo {
    fn clone(&self) -> (r: Self)
        ensures
            r@ == self@,
    {
        let addresses = self.addresses.clone();
        assert(texts(addresses@) =~= texts(self.addresses@));
        PeerInfo {
            id: self.id.clone(),
            display_name: self.display_name.clone(),
            addresses,
            last_seen_at: self.last_seen_at,
            online: self.online,
        }
    }
}

/// One chat message, sent or received. `peer_id` is the other party.
#[derive(Debug)]
pub struct Message {
    pub id: MessageId,
    pub peer_id: PeerId,
    pub direction: Direction,
    pub content: String,
    pub timestamp: Timestamp,
    pub delivered: bool,
}

/// A message as plain values.
pub struct MessageView {
    pub id: Seq<char>,
    pub peer_id: Seq<char>,
    pub direction: Direction,
    pub content: Seq<char>,
    pub timestamp: i64,
    pub delivered: bool,
}

impl View for Message {
    type V = MessageView;

    open spec fn view(&self) -> MessageView {
        MessageView {
            id: self.id@,
            peer_id: self.peer_id@,
            direction: self.direction,
            content: self.content@,
            timestamp: self.timestamp.0,
            delivered: self.delivered,
        }
    }
}

impl Clone for Message {
    fn clone(&self) -> (r: Self)
        ensures
            r@ == self@,
    {
        Message {
            id: self.id.clone(),
            peer_id: self.peer_id.clone(),
            direction: self.direction,
            content: self.content.clone(),
            timestamp: self.timestamp,
            delivered: self.delivered,
        }
    }
}

} // verus!
