//! The daemon's core: the state it owns and what it does with each event.
//!
//! The core owns the store, the configuration and the online set (the peers
//! discovery currently reports reachable). Each handler takes one event from
//! discovery, from a peer connection or from a control client, updates the
//! state, and returns the reply for the requester and the events to publish
//! to subscribers. Network sends and configuration writes are performed by
//! the caller, which reports their outcome back.
use vstd::prelude::*;
use vstd::string::*;
use crate::client::ClientError;
use crate::config::AppConfig;
use crate::discovery::DiscoveryEvent;
use crate::ipc::{error_reply, is_error_with, ClientRequest, ServerMessage};
use crate::protocol::PeerMessage;
use crate::store::{
    find_peer, has_message, has_peer, listed, lookup, marked, message_views, newest_first, peer_views,
    saved, take, upserted, without_key, without_peer, without_peer_vec, Database, DatabaseError,
    SettingView,
};
use crate::types::{
    valid_display_name, valid_message_content, Direction, Message, MessageContent, MessageId,
    MessageView, DisplayName, PeerId, PeerInfo, PeerView, Timestamp,
};

verus! {

/// A chat message that the caller is to deliver to one of `addresses`,
/// tried in order; its outcome goes back to [`DaemonApp::finish_send`].
#[derive(Debug)]
pub struct OutboundSend {
    pub message_id: MessageId,
    /// The message as stored, sent and not yet delivered.
    pub record: Message,
    pub addresses: Vec<String>,
    pub chat: PeerMessage,
}

/// What a control request leads to.
#[derive(Debug)]
pub enum RequestOutcome {
    /// Write this reply to the requester.
    Reply(ServerMessage),
    /// Deliver a message, then report the outcome to `finish_send`.
    Deliver(OutboundSend),
    /// Persist the configuration, then report the outcome to `config_saved`.
    SaveConfig,
}

/// `p` listed with its online flag taken from the online set.
pub open spec fn with_presence(online: Seq<PeerView>, p: PeerView) -> PeerView {
    PeerView { online: has_peer(online, p.id), ..p }
}

/// The peer list a `ListPeers` request answers with.
pub open spec fn peer_listing(stored: Seq<PeerView>, online: Seq<PeerView>) -> Seq<PeerView> {
    listed(stored).map_values(|p: PeerView| with_presence(online, p))
}

/// The addresses a send to `id` goes to: those of the online record if the
/// peer is online, else those of the stored record, else none.
pub open spec fn send_addresses(online: Seq<PeerView>, stored: Seq<PeerView>, id: Seq<char>) -> Seq<
    Seq<char>,
> {
    if has_peer(online, id) {
        online[choose|i: int| 0 <= i < online.len() && online[i].id == id].addresses
    } else if has_peer(stored, id) {
        stored[choose|i: int| 0 <= i < stored.len() && stored[i].id == id].addresses
    } else {
        Seq::empty()
    }
}

/// A chat received from a peer, as the store keeps it.
pub open spec fn received_view(id: Seq<char>, sender: Seq<char>, content: Seq<char>, timestamp: Timestamp) -> MessageView {
    MessageView {
        id,
        peer_id: sender,
        direction: Direction::Received,
        content,
        timestamp: timestamp.0,
        delivered: true,
    }
}

/// `out` is the send of `content` to `peer` from a machine configured as
/// `config`: a fresh 36-character identity, the addresses that a send to
/// `peer` goes to, the chat that carries it with some time `t`, and the
/// record stored for it, which takes `before` to `after`.
pub open spec fn prepared(
    online: Seq<PeerView>,
    stored: Seq<PeerView>,
    config: AppConfig,
    peer: Seq<char>,
    content: Seq<char>,
    out: OutboundSend,
    before: Seq<MessageView>,
    after: Seq<MessageView>,
) -> bool {
    &&& out.message_id@.len() == 36
    &&& crate::types::texts(out.addresses@) == send_addresses(online, stored, peer)
    &&& exists|t: Timestamp|
        {
            &&& (out.chat matches PeerMessage::Chat {
                id,
                sender_id,
                sender_name,
                content: c,
                timestamp,
            } && id@ == out.message_id@ && sender_id@ == config.peer_id@ && sender_name@
                == config.display_name@ && c@ == content && timestamp == t)
            &&& out.record@ == #[trigger] sent_view(out.message_id@, peer, content, t)
            &&& saved(before, sent_view(out.message_id@, peer, content, t), after)
        }
}

/// A message sent from this machine, as the store keeps it before any ack.
pub open spec fn sent_view(id: Seq<char>, peer: Seq<char>, content: Seq<char>, timestamp: Timestamp) -> MessageView {
    MessageView {
        id,
        peer_id: peer,
        direction: Direction::Sent,
        content,
        timestamp: timestamp.0,
        delivered: false,
    }
}

/// The record made of a chat's sender when the store has none.
pub open spec fn sender_view(id: Seq<char>, name: Seq<char>, from_addr: Seq<char>, now: Timestamp) -> PeerView {
    PeerView {
        id,
        display_name: name,
        addresses: seq![from_addr],
        last_seen_at: now.0,
        online: true,
    }
}

/// Every peer of `online` has a record in `stored`.
pub open spec fn online_recorded(online: Seq<PeerView>, stored: Seq<PeerView>) -> bool {
    forall|i: int| 0 <= i < online.len() ==> has_peer(stored, #[trigger] online[i].id)
}

/// Some address to send to means some stored record, when every online
/// peer has one.
pub proof fn lemma_addresses_recorded(online: Seq<PeerView>, stored: Seq<PeerView>, id: Seq<char>)
    requires
        online_recorded(online, stored),
    ensures
        send_addresses(online, stored, id).len() > 0 ==> has_peer(stored, id),
{
    if has_peer(online, id) {
        let i = choose|i: int| 0 <= i < online.len() && (#[trigger] online[i]).id == id;
        assert(has_peer(stored, online[i].id));
    }
}

/// Peer identities in `s` are unique.
pub open spec fn unique_ids(s: Seq<PeerView>) -> bool {
    forall|i: int, j: int|
        0 <= i < s.len() && 0 <= j < s.len() && i != j ==> (#[trigger] s[i]).id != (#[trigger] s[j]).id
}

/// The daemon's state.
pub struct DaemonApp {
    db: Database,
    config: AppConfig,
    online: Vec<PeerInfo>,
}

impl DaemonApp {
    /// The store.
    pub closed spec fn store(&self) -> Database {
        self.db
    }

    /// The active configuration.
    pub closed spec fn config_view(&self) -> AppConfig {
        self.config
    }

    /// The online set.
    pub closed spec fn online_view(&self) -> Seq<PeerView> {
        peer_views(self.online@)
    }

    /// The core's invariant.
    pub open spec fn wf(&self) -> bool {
        &&& self.store().wf()
        &&& unique_ids(self.online_view())
        &&& online_recorded(self.online_view(), self.store().peers_view())
    }

    /// A core over `db` and `config`, with nobody online.
    pub fn new(db: Database, config: AppConfig) -> (r: Self)
        requires
            db.wf(),
        ensures
            r.wf(),
            r.store() == db,
            r.config_view() == config,
            r.online_view().len() == 0,
    {
        let r = DaemonApp { db, config, online: Vec::new() };
        assert(r.online_view() =~= Seq::<PeerView>::empty());
        r
    }

    /// The active configuration.
    pub fn config(&self) -> (r: &AppConfig)
        ensures
            *r == self.config_view(),
    {
        &self.config
    }

    /// The store.
    pub fn database(&self) -> (r: &Database)
        ensures
            *r == self.store(),
    {
        &self.db
    }

    /// Handles a discovery event, returning the event to publish. A found
    /// peer enters the online set (replacing an earlier record of it) and
    /// the store, and is announced online. A lost peer leaves the online
    /// set and is announced offline, unless it was not online.
    pub fn handle_discovery_event(&mut self, event: DiscoveryEvent) -> (r: Option<ServerMessage>)
        requires
            old(self).wf(),
        ensures
            final(self).wf(),
            final(self).config_view() == old(self).config_view(),
            event matches DiscoveryEvent::PeerFound(p) ==> r matches Some(
                ServerMessage::PeerOnline { peer },
            ) && peer@ == p@,
            event matches DiscoveryEvent::PeerFound(p) ==> final(self).online_view() == without_peer(
                old(self).online_view(),
                p@.id,
            ).push(p@),
            event matches DiscoveryEvent::PeerFound(p) ==> upserted(
                old(self).store().peers_view(),
                p@,
                final(self).store().peers_view(),
            ),
            event matches DiscoveryEvent::PeerFound(p) ==> final(self).store().messages_view() == old(
                self,
            ).store().messages_view(),
            event matches DiscoveryEvent::PeerLost(id) ==> final(self).store() == old(self).store(),
            event matches DiscoveryEvent::PeerLost(id) ==> if has_peer(old(self).online_view(), id@) {
                &&& r matches Some(ServerMessage::PeerOffline { peer_id }) && peer_id@ == id@
                &&& final(self).online_view() == without_peer(old(self).online_view(), id@)
            } else {
                r is None && final(self).online_view() == old(self).online_view()
            },
    {
        match event {
            DiscoveryEvent::PeerFound(peer) => {
                let ghost ov = self.online_view();
                let mut online = without_peer_vec(&self.online, &peer.id);
                proof {
                    crate::store::lemma_without_peer_keeps(ov, peer@.id);
                }
                let ghost before = online@;
                online.push(peer.clone());
                assert(peer_views(online@) =~= peer_views(before).push(peer@));
                self.online = online;
                let ghost old_peers = self.db.peers_view();
                let ghost old_msgs = self.db.messages_view();
                let _ = self.db.upsert_peer(&peer);
                assert(upserted(old_peers, peer@, self.store().peers_view()));
                assert(self.store().messages_view() == old_msgs);
                assert(self.online_view() == without_peer(ov, peer@.id).push(peer@));
                proof {
                    crate::store::lemma_upserted_has_peers(old_peers, peer@, self.store().peers_view());
                    let v = self.online_view();
                    let w = without_peer(ov, peer@.id);
                    assert forall|i: int| 0 <= i < v.len() implies has_peer(
                        self.store().peers_view(),
                        #[trigger] v[i].id,
                    ) by {
                        if i < w.len() {
                            assert(v[i] == w[i]);
                            assert(w.contains(w[i]));
                            let j = choose|j: int| 0 <= j < ov.len() && ov[j] == w[i];
                            assert(has_peer(old_peers, ov[j].id));
                        }
                    }
                }
                assert(unique_ids(self.online_view())) by {
                    let v = self.online_view();
                    let w = without_peer(ov, peer@.id);
                    assert forall|i: int, j: int|
                        0 <= i < v.len() && 0 <= j < v.len() && i != j implies (#[trigger] v[i]).id
                        != (#[trigger] v[j]).id by {
                        if i < w.len() && j < w.len() {
                            assert(v[i] == w[i] && v[j] == w[j]);
                        } else if i < w.len() {
                            assert(v[i] == w[i]);
                        } else {
                            assert(v[j] == w[j]);
                        }
                    }
                }
                Some(ServerMessage::PeerOnline { peer })
            },
            DiscoveryEvent::PeerLost(peer_id) => {
                match find_peer(&self.online, &peer_id) {
                    Some(i) => {
                        let ghost ov = self.online_view();
                        assert(ov[i as int].id == peer_id@);
                        let online = without_peer_vec(&self.online, &peer_id);
                        proof {
                            crate::store::lemma_without_peer_keeps(ov, peer_id@);
                        }
                        self.online = online;
                        proof {
                            let v = self.online_view();
                            assert forall|q: int| 0 <= q < v.len() implies has_peer(
                                self.store().peers_view(),
                                #[trigger] v[q].id,
                            ) by {
                                assert(v.contains(v[q]));
                                let j = choose|j: int| 0 <= j < ov.len() && ov[j] == v[q];
                            }
                        }
                        Some(ServerMessage::PeerOffline { peer_id })
                    },
                    None => None,
                }
            },
        }
    }

    /// Handles a message from a peer connection, returning the event to
    /// publish. A chat is stored as received and delivered (its ack already
    /// went out), after recording its sender from the chat itself if the
    /// store has no record of it; it is announced unless the store already
    /// held its identity. An ack marks the message delivered and is always
    /// announced. Pings and pongs change nothing.
    pub fn handle_incoming_message(&mut self, msg: PeerMessage, from_addr: &str, now: Timestamp) -> (r:
        Option<ServerMessage>)
        requires
            old(self).wf(),
        ensures
            final(self).wf(),
            final(self).config_view() == old(self).config_view(),
            final(self).online_view() == old(self).online_view(),
            final(self).store().settings_view() == old(self).store().settings_view(),
            msg matches PeerMessage::Chat { id, sender_id, sender_name, content, timestamp } ==> {
                let m = received_view(id@, sender_id@, content@, timestamp);
                let sender = sender_view(sender_id@, sender_name@, from_addr@, now);
                &&& if has_peer(old(self).store().peers_view(), sender_id@) {
                    final(self).store().peers_view() == old(self).store().peers_view()
                } else {
                    upserted(old(self).store().peers_view(), sender, final(self).store().peers_view())
                }
                &&& if has_message(old(self).store().messages_view(), id@) {
                    &&& r is None
                    &&& final(self).store().messages_view() == old(self).store().messages_view()
                } else {
                    &&& r matches Some(ServerMessage::NewMessage { message }) && message@ == m
                    &&& saved(old(self).store().messages_view(), m, final(self).store().messages_view())
                }
            },
            msg matches PeerMessage::Ack { message_id } ==> {
                &&& r matches Some(ServerMessage::MessageDelivered { message_id: d }) && d@
                    == message_id@
                &&& final(self).store().peers_view() == old(self).store().peers_view()
                &&& exists|changed: bool|
                    marked(
                        old(self).store().messages_view(),
                        message_id@,
                        changed,
                        final(self).store().messages_view(),
                    )
            },
            (msg is Ping || msg is Pong) ==> r is None && final(self).store() == old(self).store(),
    {
        match msg {
            PeerMessage::Chat { id, sender_id, sender_name, content, timestamp } => {
                let known = self.db.find_peer(&sender_id);
                if known.is_none() {
                    let sender = PeerInfo {
                        id: sender_id.clone(),
                        display_name: sender_name,
                        addresses: vec![String::from_str(from_addr)],
                        last_seen_at: now,
                        online: true,
                    };
                    assert(crate::types::texts(sender.addresses@) =~= seq![from_addr@]);
                    let ghost before_peers = self.db.peers_view();
                    let _ = self.db.upsert_peer(&sender);
                    proof {
                        crate::store::lemma_upserted_has_peers(before_peers, sender@, self.db.peers_view());
                        let v = self.online_view();
                        assert forall|q: int| 0 <= q < v.len() implies has_peer(
                            self.store().peers_view(),
                            #[trigger] v[q].id,
                        ) by {
                            assert(has_peer(before_peers, v[q].id));
                        }
                    }
                }
                let message = Message {
                    id,
                    peer_id: sender_id,
                    direction: Direction::Received,
                    content,
                    timestamp,
                    delivered: true,
                };
                match self.db.save_message(&message) {
                    Err(DatabaseError::DuplicateMessage) => None,
                    _ => Some(ServerMessage::NewMessage { message }),
                }
            },
            PeerMessage::Ack { message_id } => {
                let changed = self.db.mark_delivered(&message_id);
                Some(ServerMessage::MessageDelivered { message_id })
            },
            PeerMessage::Ping => None,
            PeerMessage::Pong => None,
        }
    }

    /// The reply to `ListPeers`: every stored peer, online exactly when it
    /// is in the online set.
    pub fn handle_list_peers(&self) -> (r: ServerMessage)
        ensures
            r matches ServerMessage::PeerList { peers } && peer_views(peers@) == peer_listing(
                self.store().peers_view(),
                self.online_view(),
            ),
    {
        let stored = match self.db.get_peers() {
            Ok(v) => v,
            Err(_) => Vec::new(),
        };
        let ghost sv = peer_views(stored@);
        let ghost ov = self.online_view();
        let mut peers: Vec<PeerInfo> = Vec::new();
        let mut i: usize = 0;
        while i < stored.len()
            invariant
                i <= stored@.len(),
                sv == peer_views(stored@),
                sv == listed(self.store().peers_view()),
                ov == self.online_view(),
                peer_views(peers@) == sv.subrange(0, i as int).map_values(
                    |p: PeerView| with_presence(ov, p),
                ),
            decreases stored@.len() - i,
        {
            let mut p = stored[i].clone();
            p.online = match find_peer(&self.online, &p.id) {
                Some(j) => {
                    assert(ov[j as int].id == p@.id);
                    true
                },
                None => false,
            };
            let ghost before = peers@;
            peers.push(p);
            assert(peer_views(peers@) =~= peer_views(before).push(with_presence(ov, sv[i as int])));
            assert(sv.subrange(0, i as int + 1).map_values(|p: PeerView| with_presence(ov, p))
                =~= sv.subrange(0, i as int).map_values(|p: PeerView| with_presence(ov, p)).push(
                with_presence(ov, sv[i as int]),
            ));
            i = i + 1;
        }
        assert(sv.subrange(0, i as int) =~= sv);
        ServerMessage::PeerList { peers }
    }

    /// The reply to `GetMessages`: the store's page for `peer_id`.
    pub fn handle_get_messages(&self, peer_id: &PeerId, limit: u32, before: Option<Timestamp>) -> (r:
        ServerMessage)
        ensures
            r matches ServerMessage::Messages { messages } && message_views(messages@) == take(
                newest_first(self.store().messages_view(), peer_id@, before),
                limit as int,
            ),
    {
        match self.db.get_messages(peer_id, limit, before) {
            Ok(messages) => ServerMessage::Messages { messages },
            Err(_) => error_reply("db_error", String::from_str("failed to fetch messages")),
        }
    }

    /// The reply to `GetConfig`: this machine's name and identity.
    pub fn handle_get_config(&self) -> (r: ServerMessage)
        ensures
            r matches ServerMessage::Config { display_name, peer_id } && display_name@
                == self.config_view().display_name@ && peer_id@ == self.config_view().peer_id@,
    {
        ServerMessage::Config {
            display_name: self.config.display_name.clone(),
            peer_id: PeerId::new(self.config.peer_id.as_str()),
        }
    }

    /// The addresses to send to `id`: those of its online record, else
    /// those of its stored record, else none.
    fn addresses_of(&self, id: &PeerId) -> (r: Vec<String>)
        requires
            self.wf(),
        ensures
            crate::types::texts(r@) == send_addresses(self.online_view(), self.store().peers_view(), id@),
    {
        let ghost ov = self.online_view();
        let ghost sv = self.store().peers_view();
        match find_peer(&self.online, id) {
            Some(i) => {
                proof {
                    let c = choose|c: int| 0 <= c < ov.len() && ov[c].id == id@;
                    assert(ov[i as int].id == id@);
                    assert(c == i);
                }
                let a = self.online[i].addresses.clone();
                assert(crate::types::texts(a@) =~= crate::types::texts(self.online@[i as int].addresses@));
                a
            },
            None => match self.db.find_peer(id) {
                Some(p) => {
                    proof {
                        let j = choose|j: int| 0 <= j < sv.len() && sv[j] == p@;
                        let c = choose|c: int| 0 <= c < sv.len() && sv[c].id == id@;
                        assert(c == j);
                    }
                    let a = p.addresses;
                    a
                },
                None => Vec::new(),
            },
        }
    }

    /// Starts sending `content` to `peer_id` as the message `message_id`
    /// of time `timestamp`: checks the content, finds the peer's addresses,
    /// and stores the message as sent and not delivered. The returned send
    /// is for the caller to perform.
    pub fn prepare_send(
        &mut self,
        peer_id: &PeerId,
        content: &str,
        message_id: MessageId,
        timestamp: Timestamp,
    ) -> (r: Result<OutboundSend, ServerMessage>)
        requires
            old(self).wf(),
        ensures
            final(self).wf(),
            final(self).config_view() == old(self).config_view(),
            final(self).online_view() == old(self).online_view(),
            final(self).store().peers_view() == old(self).store().peers_view(),
            final(self).store().settings_view() == old(self).store().settings_view(),
            ({
                let addrs = send_addresses(
                    old(self).online_view(),
                    old(self).store().peers_view(),
                    peer_id@,
                );
                let m = sent_view(message_id@, peer_id@, content@, timestamp);
                if !valid_message_content(content@) {
                    &&& r matches Err(e) && is_error_with(e, "invalid_content"@)
                    &&& final(self).store() == old(self).store()
                } else if addrs.len() == 0 {
                    &&& r matches Err(e) && is_error_with(e, "peer_not_found"@)
                    &&& final(self).store() == old(self).store()
                } else if has_message(old(self).store().messages_view(), message_id@) {
                    &&& r matches Err(e) && is_error_with(e, "db_error"@)
                    &&& final(self).store() == old(self).store()
                } else {
                    &&& (r matches Ok(out) && out.message_id@ == message_id@ && crate::types::texts(
                        out.addresses@,
                    ) == addrs && (out.chat matches PeerMessage::Chat {
                        id,
                        sender_id,
                        sender_name,
                        content: c,
                        timestamp: t,
                    } && id@ == message_id@ && sender_id@ == old(self).config_view().peer_id@
                        && sender_name@ == old(self).config_view().display_name@ && c@ == content@
                        && t == timestamp) && out.record@ == m)
                    &&& saved(old(self).store().messages_view(), m, final(self).store().messages_view())
                }
            }),
    {
        match MessageContent::new(content) {
            Err(_) => {
                return Err(
                    error_reply("invalid_content", String::from_str("message content is empty or too long")),
                );
            },
            Ok(_) => {},
        }
        proof {
            lemma_addresses_recorded(self.online_view(), self.store().peers_view(), peer_id@);
        }
        let addresses = self.addresses_of(peer_id);
        if addresses.len() == 0 {
            let text = String::from_str("no known addresses for peer ").concat(peer_id.as_str());
            return Err(error_reply("peer_not_found", text));
        }
        let message = Message {
            id: message_id.clone(),
            peer_id: peer_id.clone(),
            direction: Direction::Sent,
            content: String::from_str(content),
            timestamp,
            delivered: false,
        };
        match self.db.save_message(&message) {
            Ok(()) => {},
            Err(_) => {
                return Err(error_reply("db_error", String::from_str("failed to save message")));
            },
        }
        let record = message;
        let chat = PeerMessage::Chat {
            id: message_id.clone(),
            sender_id: PeerId::new(self.config.peer_id.as_str()),
            sender_name: self.config.display_name.clone(),
            content: String::from_str(content),
            timestamp,
        };
        Ok(OutboundSend { message_id, record, addresses, chat })
    }

    /// Starts a send as `prepare_send` does, with a fresh message identity
    /// and the current time.
    pub fn begin_send(&mut self, peer_id: &PeerId, content: &str) -> (r: Result<OutboundSend, ServerMessage>)
        requires
            old(self).wf(),
        ensures
            final(self).wf(),
            final(self).config_view() == old(self).config_view(),
            final(self).online_view() == old(self).online_view(),
            final(self).store().peers_view() == old(self).store().peers_view(),
            final(self).store().settings_view() == old(self).store().settings_view(),
            !valid_message_content(content@) ==> (r matches Err(e) && is_error_with(e, "invalid_content"@)),
            valid_message_content(content@) && send_addresses(
                old(self).online_view(),
                old(self).store().peers_view(),
                peer_id@,
            ).len() == 0 ==> (r matches Err(e) && is_error_with(e, "peer_not_found"@)),
            r is Err ==> final(self).store() == old(self).store(),
            r matches Ok(out) ==> prepared(
                old(self).online_view(),
                old(self).store().peers_view(),
                old(self).config_view(),
                peer_id@,
                content@,
                out,
                old(self).store().messages_view(),
                final(self).store().messages_view(),
            ),
            (r is Err && valid_message_content(content@) && send_addresses(
                old(self).online_view(),
                old(self).store().peers_view(),
                peer_id@,
            ).len() > 0) ==> (r matches Err(e) && is_error_with(e, "db_error"@)) && exists|i: int|
                0 <= i < old(self).store().messages_view().len() && (
                #[trigger] old(self).store().messages_view()[i]).id.len() == 36,
    {
        let message_id = MessageId::generate();
        let timestamp = Timestamp::now();
        let ghost ov = self.online_view();
        let ghost sv = self.store().peers_view();
        proof {
            lemma_addresses_recorded(ov, sv, peer_id@);
        }
        let r = self.prepare_send(peer_id, content, message_id, timestamp);
        assert(r matches Ok(out) ==> out.record@ == sent_view(out.message_id@, peer_id@, content@, timestamp));
        r
    }

    /// Completes a send with its outcome: on delivery the message is marked
    /// delivered and `MessageDelivered` is announced; either way the reply
    /// is `MessageSent`, the message staying undelivered after a failure.
    pub fn finish_send(&mut self, message_id: &MessageId, outcome: &Result<(), ClientError>) -> (r: (
        ServerMessage,
        Option<ServerMessage>,
    ))
        requires
            old(self).wf(),
        ensures
            final(self).wf(),
            final(self).config_view() == old(self).config_view(),
            final(self).online_view() == old(self).online_view(),
            final(self).store().peers_view() == old(self).store().peers_view(),
            r.0 matches ServerMessage::MessageSent { message_id: m } && m@ == message_id@,
            outcome is Ok ==> {
                &&& r.1 matches Some(ServerMessage::MessageDelivered { message_id: d }) && d@
                    == message_id@
                &&& exists|changed: bool|
                    marked(
                        old(self).store().messages_view(),
                        message_id@,
                        changed,
                        final(self).store().messages_view(),
                    )
            },
            outcome is Err ==> r.1 is None && final(self).store() == old(self).store(),
    {
        match outcome {
            Ok(()) => {
                let _ = self.db.mark_delivered(message_id);
                (
                    ServerMessage::MessageSent { message_id: message_id.clone() },
                    Some(ServerMessage::MessageDelivered { message_id: message_id.clone() }),
                )
            },
            Err(_) => (ServerMessage::MessageSent { message_id: message_id.clone() }, None),
        }
    }

    /// Handles `SetDisplayName`: a valid name (once trimmed) becomes the
    /// active name and the configuration is to be persisted; an invalid one
    /// is refused with `invalid_name`.
    pub fn handle_set_display_name(&mut self, name: &str) -> (r: RequestOutcome)
        ensures
            final(self).store() == old(self).store(),
            final(self).online_view() == old(self).online_view(),
            final(self).wf() == old(self).wf(),
            if valid_display_name(crate::text::trimmed(name@)) {
                &&& r is SaveConfig
                &&& final(self).config_view().display_name@ == crate::text::trimmed(name@)
                &&& final(self).config_view().peer_id == old(self).config_view().peer_id
            } else {
                &&& r matches RequestOutcome::Reply(e) && is_error_with(e, "invalid_name"@)
                &&& final(self).config_view() == old(self).config_view()
            },
    {
        proof {
            crate::text::lemma_trimmed_idempotent(name@);
        }
        match DisplayName::new(name) {
            Ok(d) => {
                self.config.display_name = String::from_str(d.as_str());
                RequestOutcome::SaveConfig
            },
            Err(_) => RequestOutcome::Reply(
                error_reply("invalid_name", String::from_str("display name must be 1-50 bytes")),
            ),
        }
    }

    /// The reply once the configuration was persisted, or failed to be.
    pub fn config_saved(&self, result: Result<(), String>) -> (r: ServerMessage)
        ensures
            result is Ok ==> r is Done,
            result is Err ==> is_error_with(r, "config_error"@),
    {
        match result {
            Ok(()) => ServerMessage::Done,
            Err(e) => {
                let text = String::from_str("failed to save config: ").concat(e.as_str());
                error_reply("config_error", text)
            },
        }
    }

    /// Handles one control request.
    pub fn handle_request(&mut self, request: ClientRequest) -> (r: RequestOutcome)
        requires
            old(self).wf(),
        ensures
            final(self).wf(),
            request is ListPeers ==> (r matches RequestOutcome::Reply(ServerMessage::PeerList { peers })
                && peer_views(peers@) == peer_listing(
                old(self).store().peers_view(),
                old(self).online_view(),
            )),
            request matches ClientRequest::GetMessages { peer_id, limit, before } ==> r matches RequestOutcome::Reply(
                ServerMessage::Messages { messages },
            ) && message_views(messages@) == take(
                newest_first(old(self).store().messages_view(), peer_id@, before),
                limit as int,
            ),
            request is GetConfig ==> (r matches RequestOutcome::Reply(
                ServerMessage::Config { display_name, peer_id },
            ) && display_name@ == old(self).config_view().display_name@ && peer_id@ == old(
                self,
            ).config_view().peer_id@),
            request is Subscribe ==> r matches RequestOutcome::Reply(ServerMessage::Done),
            request matches ClientRequest::SetDisplayName { name } ==> if valid_display_name(
                crate::text::trimmed(name@),
            ) {
                r is SaveConfig && final(self).config_view().display_name@ == crate::text::trimmed(
                    name@,
                )
            } else {
                (r matches RequestOutcome::Reply(e) && is_error_with(e, "invalid_name"@))
                    && final(self).config_view() == old(self).config_view()
            },
            request matches ClientRequest::SendMessage { peer_id, content } ==> (valid_message_content(
                content@,
            ) && send_addresses(old(self).online_view(), old(self).store().peers_view(), peer_id@).len()
                == 0 ==> (r matches RequestOutcome::Reply(e) && is_error_with(e, "peer_not_found"@))),
            request matches ClientRequest::SendMessage { peer_id, content } ==> (valid_message_content(
                content@,
            ) && send_addresses(old(self).online_view(), old(self).store().peers_view(), peer_id@).len()
                > 0 ==> ((r matches RequestOutcome::Deliver(out) && prepared(
                old(self).online_view(),
                old(self).store().peers_view(),
                old(self).config_view(),
                peer_id@,
                content@,
                out,
                old(self).store().messages_view(),
                final(self).store().messages_view(),
            )) || ((r matches RequestOutcome::Reply(e) && is_error_with(e, "db_error"@))
                && final(self).store() == old(self).store()))),
            request matches ClientRequest::SendMessage { peer_id, content } ==> (
            !valid_message_content(content@) ==> (r matches RequestOutcome::Reply(e) && is_error_with(
                e,
                "invalid_content"@,
            ))),
            (request is ListPeers || request is GetMessages || request is GetConfig
                || request is Subscribe) ==> *final(self) == *old(self),
    {
        match request {
            ClientRequest::ListPeers => RequestOutcome::Reply(self.handle_list_peers()),
            ClientRequest::GetMessages { peer_id, limit, before } => RequestOutcome::Reply(
                self.handle_get_messages(&peer_id, limit, before),
            ),
            ClientRequest::SendMessage { peer_id, content } => {
                match self.begin_send(&peer_id, content.as_str()) {
                    Ok(out) => RequestOutcome::Deliver(out),
                    Err(e) => RequestOutcome::Reply(e),
                }
            },
            ClientRequest::GetConfig => RequestOutcome::Reply(self.handle_get_config()),
            ClientRequest::SetDisplayName { name } => self.handle_set_display_name(name.as_str()),
            ClientRequest::Subscribe => RequestOutcome::Reply(ServerMessage::Done),
        }
    }
}

/// A peer resolved under a service label and then removed under that label
/// is announced online and then offline exactly once: the tracker maps the
/// label to the peer's identity, the online set then holds that identity,
/// and once it is removed a further removal finds nothing.
pub proof fn law_found_then_lost(labels: Seq<SettingView>, label: Seq<char>, online: Seq<PeerView>, p: PeerView)
    ensures
        lookup(without_key(labels, label).push((label, p.id)), label) == Some(p.id),
        has_peer(without_peer(online, p.id).push(p), p.id),
        !has_peer(without_peer(without_peer(online, p.id).push(p), p.id), p.id),
{
    let o = without_peer(online, p.id).push(p);
    assert(o[o.len() - 1].id == p.id);
    crate::store::lemma_without_peer_keeps(o, p.id);
}

} // verus!
