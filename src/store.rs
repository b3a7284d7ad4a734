//! The message store: settings, every peer ever seen, and all messages.
//!
//! The store keeps messages in timestamp order (ties in order of saving) and
//! answers the queries of the daemon: peers by display name, a page of the
//! conversation with one peer newest first, delivery marks and unread
//! counts. A message's identity is unique in the store.
use vstd::prelude::*;
use vstd::string::*;
use crate::order::{lex_le, text_le};
use crate::text::text_eq;
use crate::types::{Direction, Message, MessageId, MessageView, PeerId, PeerInfo, PeerView, Timestamp};

verus! {

/// Why a store operation failed.
#[derive(Debug)]
pub enum DatabaseError {
    /// A message with the same identity is already stored.
    DuplicateMessage,
    /// The message names a peer that the store has never recorded.
    UnknownPeer,
    /// Stored data could not be read back.
    InvalidData(String),
}

/// A setting as plain values: key and value.
pub type SettingView = (Seq<char>, Seq<char>);

/// The value stored for `k`: the last entry with that key.
pub open spec fn lookup(s: Seq<SettingView>, k: Seq<char>) -> Option<Seq<char>>
    decreases s.len(),
{
    if s.len() == 0 {
        None
    } else if s.last().0 == k {
        Some(s.last().1)
    } else {
        lookup(s.drop_last(), k)
    }
}

/// `s` without the entries for `k`.
pub open spec fn without_key(s: Seq<SettingView>, k: Seq<char>) -> Seq<SettingView>
    decreases s.len(),
{
    if s.len() == 0 {
        s
    } else if s.last().0 == k {
        without_key(s.drop_last(), k)
    } else {
        without_key(s.drop_last(), k).push(s.last())
    }
}

/// `s` without the peers whose identity is `id`.
pub open spec fn without_peer(s: Seq<PeerView>, id: Seq<char>) -> Seq<PeerView>
    decreases s.len(),
{
    if s.len() == 0 {
        s
    } else if s.last().id == id {
        without_peer(s.drop_last(), id)
    } else {
        without_peer(s.drop_last(), id).push(s.last())
    }
}

/// The record `p` as the store gives it back: not online.
pub open spec fn offline(p: PeerView) -> PeerView {
    PeerView { online: false, ..p }
}

/// The records of `s` as a listing gives them: none online.
pub open spec fn listed(s: Seq<PeerView>) -> Seq<PeerView> {
    s.map_values(|q: PeerView| offline(q))
}

/// `k` is where a peer named `name` goes in `s`: after every peer whose
/// name sorts no later, before the first that sorts later.
pub open spec fn name_slot(s: Seq<PeerView>, name: Seq<char>, k: int) -> bool {
    &&& 0 <= k <= s.len()
    &&& forall|i: int| 0 <= i < k ==> lex_le(#[trigger] s[i].display_name, name)
    &&& k == s.len() || !lex_le(s[k].display_name, name)
}

/// `new` is `old` with `p` inserted or replacing the record of the same identity.
pub open spec fn upserted(old: Seq<PeerView>, p: PeerView, new: Seq<PeerView>) -> bool {
    let rest = without_peer(old, p.id);
    exists|k: int| name_slot(rest, p.display_name, k) && new == rest.insert(k, offline(p))
}

/// Some peer in `s` has identity `id`.
pub open spec fn has_peer(s: Seq<PeerView>, id: Seq<char>) -> bool {
    exists|i: int| 0 <= i < s.len() && (#[trigger] s[i]).id == id
}

/// Some message in `s` has identity `id`.
pub open spec fn has_message(s: Seq<MessageView>, id: Seq<char>) -> bool {
    exists|i: int| 0 <= i < s.len() && (#[trigger] s[i]).id == id
}

/// `k` is where a message of time `ts` goes in `s`: after every message no
/// newer, before the first newer one.
pub open spec fn time_slot(s: Seq<MessageView>, ts: i64, k: int) -> bool {
    &&& 0 <= k <= s.len()
    &&& forall|i: int| 0 <= i < k ==> (#[trigger] s[i]).timestamp <= ts
    &&& k == s.len() || s[k].timestamp > ts
}

/// `new` is `old` with `m` inserted in time order.
pub open spec fn saved(old: Seq<MessageView>, m: MessageView, new: Seq<MessageView>) -> bool {
    exists|k: int| time_slot(old, m.timestamp, k) && new == old.insert(k, m)
}

/// `m` belongs to the page of `peer` older than `before`.
pub open spec fn in_page(m: MessageView, peer: Seq<char>, before: Option<Timestamp>) -> bool {
    &&& m.peer_id == peer
    &&& match before {
        Some(b) => m.timestamp < b.0,
        None => true,
    }
}

/// The messages of `s` in the page of `peer` before `before`, last stored first.
pub open spec fn newest_first(s: Seq<MessageView>, peer: Seq<char>, before: Option<Timestamp>) -> Seq<
    MessageView,
>
    decreases s.len(),
{
    if s.len() == 0 {
        s
    } else {
        let r = newest_first(s.drop_first(), peer, before);
        if in_page(s[0], peer, before) {
            r.push(s[0])
        } else {
            r
        }
    }
}

/// The first `n` elements of `s`, or all of them.
pub open spec fn take<A>(s: Seq<A>, n: int) -> Seq<A> {
    if s.len() <= n {
        s
    } else {
        s.subrange(0, n)
    }
}

/// `i` is the index of an undelivered message with identity `id`.
pub open spec fn undelivered_at(s: Seq<MessageView>, id: Seq<char>, i: int) -> bool {
    0 <= i < s.len() && s[i].id == id && !s[i].delivered
}

/// `s` with the message at `i` marked delivered.
pub open spec fn delivered_at(s: Seq<MessageView>, i: int) -> Seq<MessageView> {
    s.update(i, MessageView { delivered: true, ..s[i] })
}

/// `new` is what marking `id` delivered makes of `old`, and `changed` says
/// whether an undelivered message was turned delivered.
pub open spec fn marked(old: Seq<MessageView>, id: Seq<char>, changed: bool, new: Seq<MessageView>) -> bool {
    if changed {
        exists|i: int| undelivered_at(old, id, i) && new == delivered_at(old, i)
    } else {
        &&& forall|i: int| !undelivered_at(old, id, i)
        &&& new == old
    }
}

/// Number of received, undelivered messages with `peer`.
pub open spec fn unread(s: Seq<MessageView>, peer: Seq<char>) -> nat
    decreases s.len(),
{
    if s.len() == 0 {
        0
    } else {
        unread(s.drop_last(), peer) + if s.last().peer_id == peer && s.last().direction
            == Direction::Received && !s.last().delivered {
            1nat
        } else {
            0nat
        }
    }
}

/// Message identities in `s` are unique and times never decrease.
pub open spec fn messages_wf(s: Seq<MessageView>) -> bool {
    &&& forall|i: int, j: int|
        0 <= i < s.len() && 0 <= j < s.len() && i != j ==> (#[trigger] s[i]).id != (#[trigger] s[j]).id
    &&& forall|i: int, j: int|
        0 <= i <= j < s.len() ==> (#[trigger] s[i]).timestamp <= (#[trigger] s[j]).timestamp
}

/// Peer identities in `s` are unique.
pub open spec fn peers_unique(s: Seq<PeerView>) -> bool {
    forall|i: int, j: int|
        0 <= i < s.len() && 0 <= j < s.len() && i != j ==> (#[trigger] s[i]).id != (#[trigger] s[j]).id
}

/// The peers of `s` are in display-name order.
pub open spec fn by_name(s: Seq<PeerView>) -> bool {
    forall|i: int, j: int|
        0 <= i < j < s.len() ==> lex_le(#[trigger] s[i].display_name, #[trigger] s[j].display_name)
}

/// Views of a list of peers.
pub open spec fn peer_views(v: Seq<PeerInfo>) -> Seq<PeerView> {
    v.map_values(|p: PeerInfo| p@)
}

/// Views of a list of messages.
pub open spec fn message_views(v: Seq<Message>) -> Seq<MessageView> {
    v.map_values(|m: Message| m@)
}

/// The store.
pub struct Database {
    settings: Vec<(String, String)>,
    peers: Vec<PeerInfo>,
    messages: Vec<Message>,
}

impl Database {
    /// The settings, oldest entry first.
    pub closed spec fn settings_view(&self) -> Seq<SettingView> {
        entry_views(self.settings@)
    }

    /// The peer records in the order the store lists them.
    pub closed spec fn peers_view(&self) -> Seq<PeerView> {
        peer_views(self.peers@)
    }

    /// The messages in time order.
    pub closed spec fn messages_view(&self) -> Seq<MessageView> {
        message_views(self.messages@)
    }

    /// The store's invariant.
    pub open spec fn wf(&self) -> bool {
        &&& messages_wf(self.messages_view())
        &&& peers_unique(self.peers_view())
        &&& by_name(self.peers_view())
    }

    /// An empty store.
    pub fn open_in_memory() -> (r: Result<Self, DatabaseError>)
        ensures
            r matches Ok(db) && db.wf() && db.settings_view().len() == 0 && db.peers_view().len()
                == 0 && db.messages_view().len() == 0,
    {
        let db = Database { settings: Vec::new(), peers: Vec::new(), messages: Vec::new() };
        assert(db.messages_view() =~= Seq::empty());
        assert(db.peers_view() =~= Seq::empty());
        assert(db.settings_view() =~= Seq::empty());
        Ok(db)
    }

    /// The value stored under `key`, if any.
    pub fn get_config(&self, key: &str) -> (r: Result<Option<String>, DatabaseError>)
        ensures
            r matches Ok(v) && match v {
                Some(x) => lookup(self.settings_view(), key@) == Some(x@),
                None => lookup(self.settings_view(), key@) is None,
            },
    {
        Ok(find_entry(&self.settings, key))
    }

    /// Stores `value` under `key`, replacing any earlier value.
    pub fn set_config(&mut self, key: &str, value: &str) -> (r: Result<(), DatabaseError>)
        ensures
            r is Ok,
            final(self).wf() == old(self).wf(),
            final(self).peers_view() == old(self).peers_view(),
            final(self).messages_view() == old(self).messages_view(),
            final(self).settings_view() == without_key(old(self).settings_view(), key@).push(
                (key@, value@),
            ),
            forall|k: Seq<char>|
                #[trigger] lookup(final(self).settings_view(), k) == if k == key@ {
                    Some(value@)
                } else {
                    lookup(old(self).settings_view(), k)
                },
    {
        let ghost sv = self.settings_view();
        let mut rest = without_entry(&self.settings, key);
        let ghost before = rest@;
        rest.push((String::from_str(key), String::from_str(value)));
        assert(entry_views(rest@) =~= entry_views(before).push((key@, value@)));
        self.settings = rest;
        assert forall|k: Seq<char>|
            #[trigger] lookup(self.settings_view(), k) == if k == key@ {
                Some(value@)
            } else {
                lookup(sv, k)
            } by {
            lemma_lookup_without_key(sv, key@, k);
            assert(self.settings_view().drop_last() =~= without_key(sv, key@));
        }
        Ok(())
    }

    /// Records `peer`, replacing the record of the same identity if there is
    /// one. The record is kept among the others in display-name order.
    pub fn upsert_peer(&mut self, peer: &PeerInfo) -> (r: Result<(), DatabaseError>)
        ensures
            has_peer(final(self).peers_view(), peer@.id),
            r is Ok,
            old(self).wf() ==> final(self).wf(),
            final(self).settings_view() == old(self).settings_view(),
            final(self).messages_view() == old(self).messages_view(),
            upserted(old(self).peers_view(), peer@, final(self).peers_view()),
    {
        let ghost pv = self.peers_view();
        let mut rest = without_peer_vec(&self.peers, &peer.id);
        let ghost rv = peer_views(rest@);
        let mut k: usize = 0;
        while k < rest.len() && text_le(rest[k].display_name.as_str(), peer.display_name.as_str())
            invariant
                k <= rest@.len(),
                rv == peer_views(rest@),
                forall|j: int| 0 <= j < k ==> lex_le(#[trigger] rv[j].display_name, peer@.display_name),
            decreases rest@.len() - k,
        {
            k = k + 1;
        }
        let mut stored = peer.clone();
        stored.online = false;
        rest.insert(k, stored);
        assert(peer_views(rest@) =~= rv.insert(k as int, offline(peer@)));
        assert(peer_views(rest@)[k as int].id == peer@.id);
        assert(name_slot(rv, peer@.display_name, k as int));
        proof {
            lemma_without_peer_keeps(pv, peer@.id);
            let nv = peer_views(rest@);
            if by_name(pv) {
                lemma_without_peer_by_name(pv, peer@.id);
                lemma_insert_by_name(rv, offline(peer@), k as int);
            }
            if peers_unique(pv) {
                assert forall|a: int, b: int|
                    0 <= a < nv.len() && 0 <= b < nv.len() && a != b implies (#[trigger] nv[a]).id != (
                    #[trigger] nv[b]).id by {
                    let a0 = if a < k { a } else { a - 1 };
                    let b0 = if b < k { b } else { b - 1 };
                    if a != k && b != k {
                        assert(nv[a] == rv[a0]);
                        assert(nv[b] == rv[b0]);
                    } else if a == k {
                        assert(nv[b] == rv[b0]);
                    } else {
                        assert(nv[a] == rv[a0]);
                    }
                }
            }
        }
        self.peers = rest;
        Ok(())
    }

    /// The record of the peer `id`, if the store has one.
    pub fn find_peer(&self, id: &PeerId) -> (r: Option<PeerInfo>)
        ensures
            match r {
                Some(p) => has_peer(self.peers_view(), id@) && p@.id == id@ && self.peers_view().contains(p@),
                None => !has_peer(self.peers_view(), id@),
            },
    {
        match find_peer(&self.peers, id) {
            Some(i) => {
                let p = self.peers[i].clone();
                assert(self.peers_view()[i as int] == p@);
                Some(p)
            },
            None => None,
        }
    }

    /// Every recorded peer, in the store's order, none of them online.
    pub fn get_peers(&self) -> (r: Result<Vec<PeerInfo>, DatabaseError>)
        ensures
            r matches Ok(v) && peer_views(v@) == listed(self.peers_view()),
            self.wf() ==> by_name(listed(self.peers_view())),
    {
        let ghost pv = self.peers_view();
        let mut out: Vec<PeerInfo> = Vec::new();
        let mut i: usize = 0;
        while i < self.peers.len()
            invariant
                i <= self.peers@.len(),
                pv == self.peers_view(),
                peer_views(out@) == pv.subrange(0, i as int).map_values(|p: PeerView| offline(p)),
            decreases self.peers@.len() - i,
        {
            let mut e = self.peers[i].clone();
            e.online = false;
            let ghost before = out@;
            out.push(e);
            assert(peer_views(out@) =~= peer_views(before).push(offline(pv[i as int])));
            assert(pv.subrange(0, i as int + 1).map_values(|p: PeerView| offline(p)) =~= pv.subrange(
                0,
                i as int,
            ).map_values(|p: PeerView| offline(p)).push(offline(pv[i as int])));
            i = i + 1;
        }
        assert(pv.subrange(0, i as int) =~= pv);
        Ok(out)
    }

    /// Stores `msg` in time order. Fails when a message with the same identity
    /// is already stored, or when the store has no record of its peer.
    pub fn save_message(&mut self, msg: &Message) -> (r: Result<(), DatabaseError>)
        requires
            old(self).wf(),
        ensures
            final(self).wf(),
            final(self).settings_view() == old(self).settings_view(),
            final(self).peers_view() == old(self).peers_view(),
            r is Err ==> *final(self) == *old(self),
            (r matches Err(DatabaseError::DuplicateMessage)) <==> has_message(
                old(self).messages_view(),
                msg@.id,
            ),
            match r {
                Ok(()) => {
                    &&& !has_message(old(self).messages_view(), msg@.id)
                    &&& has_peer(old(self).peers_view(), msg@.peer_id)
                    &&& saved(old(self).messages_view(), msg@, final(self).messages_view())
                },
                Err(DatabaseError::DuplicateMessage) => {
                    &&& has_message(old(self).messages_view(), msg@.id)
                    &&& final(self).messages_view() == old(self).messages_view()
                },
                Err(DatabaseError::UnknownPeer) => {
                    &&& !has_message(old(self).messages_view(), msg@.id)
                    &&& !has_peer(old(self).peers_view(), msg@.peer_id)
                    &&& final(self).messages_view() == old(self).messages_view()
                },
                Err(DatabaseError::InvalidData(_)) => false,
            },
    {
        let ghost mv = self.messages_view();
        let ghost pv = self.peers_view();
        let mut i: usize = 0;
        while i < self.messages.len()
            invariant
                i <= self.messages@.len(),
                mv == self.messages_view(),
                *self == *old(self),
                messages_wf(mv),
                self.wf(),
                forall|j: int| 0 <= j < i ==> (#[trigger] mv[j]).id != msg@.id,
            decreases self.messages@.len() - i,
        {
            if self.messages[i].id == msg.id {
                assert(mv[i as int].id == msg@.id);
                return Err(DatabaseError::DuplicateMessage);
            }
            i = i + 1;
        }
        let mut found = false;
        let mut j: usize = 0;
        while j < self.peers.len()
            invariant
                j <= self.peers@.len(),
                pv == self.peers_view(),
                *self == *old(self),
                messages_wf(mv),
                self.wf(),
                found ==> has_peer(pv, msg@.peer_id),
                !found ==> forall|q: int| 0 <= q < j ==> (#[trigger] pv[q]).id != msg@.peer_id,
            decreases self.peers@.len() - j,
        {
            if self.peers[j].id == msg.peer_id {
                found = true;
                assert(pv[j as int].id == msg@.peer_id);
            }
            j = j + 1;
        }
        if !found {
            return Err(DatabaseError::UnknownPeer);
        }
        let mut k: usize = 0;
        while k < self.messages.len() && self.messages[k].timestamp.0 <= msg.timestamp.0
            invariant
                k <= self.messages@.len(),
                mv == self.messages_view(),
                *self == *old(self),
                messages_wf(mv),
                self.wf(),
                forall|q: int| 0 <= q < k ==> (#[trigger] mv[q]).timestamp <= msg@.timestamp,
            decreases self.messages@.len() - k,
        {
            k = k + 1;
        }
        assert(time_slot(mv, msg@.timestamp, k as int));
        self.messages.insert(k, msg.clone());
        assert(self.messages_view() =~= mv.insert(k as int, msg@));
        proof {
            let nv = self.messages_view();
            assert forall|a: int, b: int| 0 <= a <= b < nv.len() implies (#[trigger] nv[a]).timestamp
                <= (#[trigger] nv[b]).timestamp by {
                if a < k && b > k {
                    assert(nv[a] == mv[a]);
                    assert(nv[b] == mv[b - 1]);
                    assert(mv[a].timestamp <= mv[b - 1].timestamp);
                } else if a < k && b == k {
                    assert(nv[a] == mv[a]);
                } else if a == k && b > k {
                    assert(nv[b] == mv[b - 1]);
                    assert(mv[k as int].timestamp <= mv[b - 1].timestamp);
                } else if a > k {
                    assert(mv[a - 1].timestamp <= mv[b - 1].timestamp);
                }
            }
            assert forall|a: int, b: int|
                0 <= a < nv.len() && 0 <= b < nv.len() && a != b implies (#[trigger] nv[a]).id != (
                #[trigger] nv[b]).id by {
                let a0 = if a < k { a } else { a - 1 };
                let b0 = if b < k { b } else { b - 1 };
                if a != k && b != k {
                    assert(nv[a] == mv[a0]);
                    assert(nv[b] == mv[b0]);
                } else if a == k {
                    assert(nv[b] == mv[b0]);
                } else {
                    assert(nv[a] == mv[a0]);
                }
            }
        }
        Ok(())
    }

    /// Up to `limit` messages with `peer`, newest first; with `before`, only
    /// those strictly older than it.
    pub fn get_messages(&self, peer_id: &PeerId, limit: u32, before: Option<Timestamp>) -> (r:
        Result<Vec<Message>, DatabaseError>)
        ensures
            r matches Ok(v) && message_views(v@) == take(
                newest_first(self.messages_view(), peer_id@, before),
                limit as int,
            ),
    {
        let ghost mv = self.messages_view();
        let n = self.messages.len();
        let mut out: Vec<Message> = Vec::new();
        let mut i: usize = n;
        assert(mv.subrange(n as int, n as int) =~= Seq::<MessageView>::empty());
        while i > 0
            invariant
                i <= n,
                n == self.messages@.len(),
                mv == self.messages_view(),
                message_views(out@) == newest_first(mv.subrange(i as int, n as int), peer_id@, before),
            decreases i,
        {
            let m = &self.messages[i - 1];
            let keep = m.peer_id == *peer_id && match before {
                Some(b) => m.timestamp.0 < b.0,
                None => true,
            };
            let ghost suf = mv.subrange(i - 1, n as int);
            assert(suf.drop_first() =~= mv.subrange(i as int, n as int));
            assert(suf[0] == mv[i - 1]);
            if keep {
                let ghost before_out = out@;
                out.push(m.clone());
                assert(message_views(out@) =~= message_views(before_out).push(mv[i - 1]));
            }
            i = i - 1;
        }
        assert(mv.subrange(0, n as int) =~= mv);
        let ghost all = message_views(out@);
        if out.len() > limit as usize {
            out.truncate(limit as usize);
            assert(message_views(out@) =~= all.subrange(0, limit as int));
        }
        Ok(out)
    }

    /// Marks the message `message_id` delivered. Returns whether that changed
    /// anything: false when it was delivered already or is not stored.
    pub fn mark_delivered(&mut self, message_id: &MessageId) -> (r: Result<bool, DatabaseError>)
        requires
            old(self).wf(),
        ensures
            final(self).wf(),
            final(self).settings_view() == old(self).settings_view(),
            final(self).peers_view() == old(self).peers_view(),
            r matches Ok(changed) && marked(
                old(self).messages_view(),
                message_id@,
                changed,
                final(self).messages_view(),
            ),
    {
        let ghost mv = self.messages_view();
        let mut i: usize = 0;
        while i < self.messages.len()
            invariant
                i <= self.messages@.len(),
                mv == self.messages_view(),
                *self == *old(self),
                messages_wf(mv),
                self.wf(),
                forall|j: int| 0 <= j < i ==> (#[trigger] mv[j]).id != message_id@,
            decreases self.messages@.len() - i,
        {
            if self.messages[i].id == *message_id {
                if self.messages[i].delivered {
                    assert forall|j: int| !undelivered_at(mv, message_id@, j) by {
                        if 0 <= j < mv.len() && j != i {
                            assert(mv[j].id != mv[i as int].id);
                        }
                    }
                    return Ok(false);
                }
                let mut m = self.messages[i].clone();
                m.delivered = true;
                self.messages.set(i, m);
                assert(self.messages_view() =~= delivered_at(mv, i as int));
                proof {
                    let nv = self.messages_view();
                    assert forall|a: int, b: int|
                        0 <= a < nv.len() && 0 <= b < nv.len() && a != b implies (#[trigger] nv[a]).id
                        != (#[trigger] nv[b]).id by {
                        assert(mv[a].id != mv[b].id);
                    }
                    assert forall|a: int, b: int| 0 <= a <= b < nv.len() implies (
                    #[trigger] nv[a]).timestamp <= (#[trigger] nv[b]).timestamp by {
                        assert(mv[a].timestamp <= mv[b].timestamp);
                    }
                }
                return Ok(true);
            }
            i = i + 1;
        }
        Ok(false)
    }

    /// Number of received messages with `peer` not yet acknowledged, up to
    /// the largest `u32`.
    pub fn unread_count(&self, peer_id: &PeerId) -> (r: Result<u32, DatabaseError>)
        ensures
            r matches Ok(c) && c == if unread(self.messages_view(), peer_id@) <= u32::MAX {
                unread(self.messages_view(), peer_id@) as u32
            } else {
                u32::MAX
            },
    {
        let ghost mv = self.messages_view();
        let mut count: u32 = 0;
        let mut i: usize = 0;
        assert(mv.subrange(0, 0) =~= Seq::<MessageView>::empty());
        while i < self.messages.len()
            invariant
                i <= self.messages@.len(),
                mv == self.messages_view(),
                count == if unread(mv.subrange(0, i as int), peer_id@) <= u32::MAX {
                    unread(mv.subrange(0, i as int), peer_id@) as u32
                } else {
                    u32::MAX
                },
            decreases self.messages@.len() - i,
        {
            let m = &self.messages[i];
            assert(mv.subrange(0, i as int + 1).drop_last() =~= mv.subrange(0, i as int));
            if m.peer_id == *peer_id && m.direction == Direction::Received && !m.delivered {
                if count < u32::MAX {
                    count = count + 1;
                }
            }
            i = i + 1;
        }
        assert(mv.subrange(0, i as int) =~= mv);
        Ok(count)
    }
}

/// The peers of `v` whose identity is not `id`, in order.
pub(crate) fn without_peer_vec(v: &Vec<PeerInfo>, id: &PeerId) -> (r: Vec<PeerInfo>)
    ensures
        peer_views(r@) == without_peer(peer_views(v@), id@),
{
    let ghost pv = peer_views(v@);
    let mut rest: Vec<PeerInfo> = Vec::new();
    let mut i: usize = 0;
    while i < v.len()
        invariant
            i <= v@.len(),
            pv == peer_views(v@),
            peer_views(rest@) == without_peer(pv.subrange(0, i as int), id@),
        decreases v@.len() - i,
    {
        let ghost pre = pv.subrange(0, i as int + 1);
        assert(pre.drop_last() =~= pv.subrange(0, i as int));
        if !(v[i].id == *id) {
            let e = v[i].clone();
            let ghost before = rest@;
            rest.push(e);
            assert(peer_views(rest@) =~= peer_views(before).push(pre.last()));
        }
        i = i + 1;
    }
    assert(pv.subrange(0, i as int) =~= pv);
    rest
}

/// The index of the peer with identity `id` in `v`, if any.
pub(crate) fn find_peer(v: &Vec<PeerInfo>, id: &PeerId) -> (r: Option<usize>)
    ensures
        match r {
            Some(i) => i < v@.len() && v@[i as int]@.id == id@ && forall|j: int|
                0 <= j < i ==> (#[trigger] peer_views(v@)[j]).id != id@,
            None => !has_peer(peer_views(v@), id@),
        },
{
    let mut i: usize = 0;
    while i < v.len()
        invariant
            i <= v@.len(),
            forall|j: int| 0 <= j < i ==> (#[trigger] peer_views(v@)[j]).id != id@,
        decreases v@.len() - i,
    {
        if v[i].id == *id {
            return Some(i);
        }
        i = i + 1;
    }
    None
}

/// Views of key/value entries.
pub open spec fn entry_views(v: Seq<(String, String)>) -> Seq<SettingView> {
    v.map_values(|e: (String, String)| (e.0@, e.1@))
}

/// The entries of `v` whose key is not `key`, in order.
pub(crate) fn without_entry(v: &Vec<(String, String)>, key: &str) -> (r: Vec<(String, String)>)
    ensures
        entry_views(r@) == without_key(entry_views(v@), key@),
{
    let ghost sv = entry_views(v@);
    let mut rest: Vec<(String, String)> = Vec::new();
    let mut i: usize = 0;
    while i < v.len()
        invariant
            i <= v@.len(),
            sv == entry_views(v@),
            entry_views(rest@) == without_key(sv.subrange(0, i as int), key@),
        decreases v@.len() - i,
    {
        let ghost pre = sv.subrange(0, i as int + 1);
        assert(pre.drop_last() =~= sv.subrange(0, i as int));
        if !text_eq(v[i].0.as_str(), key) {
            let e = (v[i].0.clone(), v[i].1.clone());
            let ghost before = rest@;
            rest.push(e);
            assert(entry_views(rest@) =~= entry_views(before).push(pre.last()));
        }
        i = i + 1;
    }
    assert(sv.subrange(0, i as int) =~= sv);
    rest
}

/// The value stored for `key` among `v`, the last entry winning.
pub(crate) fn find_entry(v: &Vec<(String, String)>, key: &str) -> (r: Option<String>)
    ensures
        match r {
            Some(x) => lookup(entry_views(v@), key@) == Some(x@),
            None => lookup(entry_views(v@), key@) is None,
        },
{
    let ghost sv = entry_views(v@);
    let mut i: usize = v.len();
    assert(sv.subrange(0, i as int) =~= sv);
    while i > 0
        invariant
            i <= v@.len(),
            sv == entry_views(v@),
            lookup(sv, key@) == lookup(sv.subrange(0, i as int), key@),
        decreases i,
    {
        let ghost pre = sv.subrange(0, i as int);
        assert(pre.drop_last() =~= sv.subrange(0, i - 1));
        if text_eq(v[i - 1].0.as_str(), key) {
            return Some(v[i - 1].1.clone());
        }
        i = i - 1;
    }
    None
}

/// Removing the entries of one key leaves every other key's value alone.
pub proof fn lemma_lookup_without_key(s: Seq<SettingView>, k: Seq<char>, kk: Seq<char>)
    ensures
        lookup(without_key(s, k), kk) == if kk == k {
            None
        } else {
            lookup(s, kk)
        },
    decreases s.len(),
{
    if s.len() > 0 {
        lemma_lookup_without_key(s.drop_last(), k, kk);
        if s.last().0 != k {
            let w = without_key(s.drop_last(), k).push(s.last());
            assert(w.drop_last() =~= without_key(s.drop_last(), k));
        }
    }
}

} // verus!

verus! {

/// What is left after removing the peers of one identity has unique
/// identities if the whole had, and none of that identity.
pub proof fn lemma_without_peer_keeps(s: Seq<PeerView>, id: Seq<char>)
    ensures
        forall|i: int| 0 <= i < without_peer(s, id).len() ==> (#[trigger] without_peer(s, id)[i]).id != id,
        (forall|i: int, j: int|
            0 <= i < s.len() && 0 <= j < s.len() && i != j ==> (#[trigger] s[i]).id != (#[trigger] s[j]).id)
            ==> (forall|i: int, j: int|
            0 <= i < without_peer(s, id).len() && 0 <= j < without_peer(s, id).len() && i != j
                ==> (#[trigger] without_peer(s, id)[i]).id != (#[trigger] without_peer(s, id)[j]).id),
        forall|x: PeerView| #[trigger] without_peer(s, id).contains(x) ==> s.contains(x),
    decreases s.len(),
{
    lemma_without_peer_drops(s, id);
    if s.len() > 0 {
        let t = s.drop_last();
        lemma_without_peer_keeps(t, id);
        let w = without_peer(t, id);
        assert forall|x: PeerView| #[trigger] without_peer(s, id).contains(x) implies s.contains(x) by {
            let k = choose|k: int| 0 <= k < without_peer(s, id).len() && without_peer(s, id)[k] == x;
            if s.last().id != id && k == w.len() {
                assert(s[s.len() - 1] == x);
            } else {
                assert(w.contains(x));
                let m = choose|m: int| 0 <= m < t.len() && t[m] == x;
                assert(s[m] == x);
            }
        }
        if forall|i: int, j: int|
            0 <= i < s.len() && 0 <= j < s.len() && i != j ==> (#[trigger] s[i]).id != (#[trigger] s[j]).id {
            assert forall|i: int, j: int|
                0 <= i < t.len() && 0 <= j < t.len() && i != j implies (#[trigger] t[i]).id != (
                #[trigger] t[j]).id by {
                assert(t[i] == s[i]);
                assert(t[j] == s[j]);
            }
            if s.last().id != id {
                let v = w.push(s.last());
                assert forall|i: int, j: int|
                    0 <= i < v.len() && 0 <= j < v.len() && i != j implies (#[trigger] v[i]).id != (
                    #[trigger] v[j]).id by {
                    if i < w.len() && j < w.len() {
                        assert(v[i] == w[i] && v[j] == w[j]);
                    } else if i == w.len() && j < w.len() {
                        assert(w.contains(v[j]));
                        let m = choose|m: int| 0 <= m < t.len() && t[m] == v[j];
                        assert(s[m] == t[m]);
                    } else if j == w.len() && i < w.len() {
                        assert(w.contains(v[i]));
                        let m = choose|m: int| 0 <= m < t.len() && t[m] == v[i];
                        assert(s[m] == t[m]);
                    }
                }
            }
        }
    }
}

proof fn lemma_without_peer_by_name(s: Seq<PeerView>, id: Seq<char>)
    requires
        by_name(s),
    ensures
        by_name(without_peer(s, id)),
    decreases s.len(),
{
    if s.len() > 0 {
        let t = s.drop_last();
        assert(by_name(t)) by {
            assert forall|i: int, j: int| 0 <= i < j < t.len() implies lex_le(
                #[trigger] t[i].display_name,
                #[trigger] t[j].display_name,
            ) by {
                assert(t[i] == s[i] && t[j] == s[j]);
            }
        }
        lemma_without_peer_by_name(t, id);
        lemma_without_peer_keeps(t, id);
        let w = without_peer(t, id);
        if s.last().id != id {
            let v = w.push(s.last());
            assert forall|i: int, j: int| 0 <= i < j < v.len() implies lex_le(
                #[trigger] v[i].display_name,
                #[trigger] v[j].display_name,
            ) by {
                if j < w.len() {
                    assert(v[i] == w[i] && v[j] == w[j]);
                } else {
                    assert(v[i] == w[i]);
                    assert(w.contains(w[i]));
                    let m = choose|m: int| 0 <= m < t.len() && t[m] == w[i];
                    assert(s[m] == t[m]);
                    assert(v[j] == s[s.len() - 1]);
                }
            }
        }
    }
}

proof fn lemma_insert_by_name(s: Seq<PeerView>, p: PeerView, k: int)
    requires
        by_name(s),
        name_slot(s, p.display_name, k),
    ensures
        by_name(s.insert(k, p)),
{
    let v = s.insert(k, p);
    assert forall|i: int, j: int| 0 <= i < j < v.len() implies lex_le(
        #[trigger] v[i].display_name,
        #[trigger] v[j].display_name,
    ) by {
        if j < k {
            assert(v[i] == s[i] && v[j] == s[j]);
        } else if j == k {
            assert(v[i] == s[i]);
        } else if i < k {
            assert(v[i] == s[i] && v[j] == s[j - 1]);
        } else if i == k {
            assert(v[j] == s[j - 1]);
            crate::order::lemma_lex_total(s[k].display_name, p.display_name);
            if j - 1 > k {
                crate::order::lemma_lex_trans(p.display_name, s[k].display_name, s[j - 1].display_name);
            }
        } else {
            assert(v[i] == s[i - 1] && v[j] == s[j - 1]);
        }
    }
}

/// Removing the peers of one identity keeps every peer of another.
pub proof fn lemma_without_peer_retains(s: Seq<PeerView>, id: Seq<char>, x: Seq<char>)
    requires
        has_peer(s, x),
        x != id,
    ensures
        has_peer(without_peer(s, id), x),
    decreases s.len(),
{
    let t = s.drop_last();
    let w = without_peer(t, id);
    if s.last().id == x {
        let v = w.push(s.last());
        assert(v[v.len() - 1].id == x);
    } else {
        let i = choose|i: int| 0 <= i < s.len() && (#[trigger] s[i]).id == x;
        assert(t[i] == s[i]);
        lemma_without_peer_retains(t, id, x);
        if s.last().id != id {
            let j = choose|j: int| 0 <= j < w.len() && (#[trigger] w[j]).id == x;
            assert(w.push(s.last())[j] == w[j]);
        }
    }
}

/// Recording a peer keeps a record of every peer recorded before, and
/// adds one of it.
pub proof fn lemma_upserted_has_peers(old: Seq<PeerView>, p: PeerView, new: Seq<PeerView>)
    requires
        upserted(old, p, new),
    ensures
        has_peer(new, p.id),
        forall|x: Seq<char>| has_peer(old, x) ==> #[trigger] has_peer(new, x),
{
    let rest = without_peer(old, p.id);
    let k = choose|k: int| name_slot(rest, p.display_name, k) && new == rest.insert(k, offline(p));
    assert(new[k].id == p.id);
    assert forall|x: Seq<char>| has_peer(old, x) implies #[trigger] has_peer(new, x) by {
        if x != p.id {
            lemma_without_peer_retains(old, p.id, x);
            let j = choose|j: int| 0 <= j < rest.len() && (#[trigger] rest[j]).id == x;
            if j < k {
                assert(new[j] == rest[j]);
            } else {
                assert(new[j + 1] == rest[j]);
            }
        }
    }
}

proof fn lemma_without_peer_drops(s: Seq<PeerView>, id: Seq<char>)
    ensures
        forall|i: int| 0 <= i < without_peer(s, id).len() ==> (#[trigger] without_peer(s, id)[i]).id != id,
    decreases s.len(),
{
    if s.len() > 0 {
        lemma_without_peer_drops(s.drop_last(), id);
        let w = without_peer(s.drop_last(), id);
        if s.last().id != id {
            assert forall|i: int| 0 <= i < w.push(s.last()).len() implies (#[trigger] w.push(
                s.last(),
            )[i]).id != id by {
                if i < w.len() {
                    assert(w.push(s.last())[i] == w[i]);
                }
            }
        }
    }
}

/// After a peer is recorded, listing the peers yields it, not online, and no
/// other record with its identity.
pub proof fn law_upsert_then_get_peers(before: Seq<PeerView>, p: PeerView, after: Seq<PeerView>)
    requires
        upserted(before, p, after),
    ensures
        exists|i: int| 0 <= i < after.len() && #[trigger] listed(after)[i] == offline(p),
        forall|i: int|
            0 <= i < after.len() && (#[trigger] listed(after)[i]).id
                == p.id ==> listed(after)[i] == offline(p),
{
    let rest = without_peer(before, p.id);
    let k = choose|k: int| name_slot(rest, p.display_name, k) && after == rest.insert(k, offline(p));
    lemma_without_peer_drops(before, p.id);
    let listed = listed(after);
    assert(listed[k] == offline(p));
    assert forall|i: int| 0 <= i < after.len() && (#[trigger] listed[i]).id == p.id implies listed[i]
        == offline(p) by {
        if i < k {
            assert(after[i] == rest[i]);
        } else if i > k {
            assert(after[i] == rest[i - 1]);
        }
    }
}

proof fn lemma_newest_first_none(s: Seq<MessageView>, peer: Seq<char>, before: Option<Timestamp>)
    requires
        forall|j: int| 0 <= j < s.len() ==> !in_page(#[trigger] s[j], peer, before),
    ensures
        newest_first(s, peer, before).len() == 0,
    decreases s.len(),
{
    if s.len() > 0 {
        assert(!in_page(s[0], peer, before));
        assert forall|j: int| 0 <= j < s.drop_first().len() implies !in_page(
            #[trigger] s.drop_first()[j],
            peer,
            before,
        ) by {
            assert(s.drop_first()[j] == s[j + 1]);
        }
        lemma_newest_first_none(s.drop_first(), peer, before);
    }
}

proof fn lemma_newest_first_head(
    s: Seq<MessageView>,
    peer: Seq<char>,
    before: Option<Timestamp>,
    k: int,
)
    requires
        0 <= k < s.len(),
        in_page(s[k], peer, before),
        forall|j: int| k < j < s.len() ==> !in_page(#[trigger] s[j], peer, before),
    ensures
        newest_first(s, peer, before).len() > 0,
        newest_first(s, peer, before)[0] == s[k],
    decreases s.len(),
{
    let t = s.drop_first();
    if k == 0 {
        assert forall|j: int| 0 <= j < t.len() implies !in_page(#[trigger] t[j], peer, before) by {
            assert(t[j] == s[j + 1]);
        }
        lemma_newest_first_none(t, peer, before);
    } else {
        assert forall|j: int| k - 1 < j < t.len() implies !in_page(#[trigger] t[j], peer, before) by {
            assert(t[j] == s[j + 1]);
        }
        lemma_newest_first_head(t, peer, before, k - 1);
    }
}

/// A message saved into a store that holds nothing newer with the same peer
/// is the first of that peer's newest page, whatever its size.
pub proof fn law_save_then_get_messages(
    before: Seq<MessageView>,
    m: MessageView,
    after: Seq<MessageView>,
    limit: int,
)
    requires
        messages_wf(before),
        saved(before, m, after),
        limit >= 1,
        forall|i: int|
            0 <= i < before.len() && (#[trigger] before[i]).peer_id == m.peer_id ==> before[i].timestamp
                <= m.timestamp,
    ensures
        take(newest_first(after, m.peer_id, None), limit).len() >= 1,
        take(newest_first(after, m.peer_id, None), limit)[0] == m,
{
    let k = choose|k: int| time_slot(before, m.timestamp, k) && after == before.insert(k, m);
    assert forall|j: int| k < j < after.len() implies !in_page(#[trigger] after[j], m.peer_id, None) by {
        assert(after[j] == before[j - 1]);
        assert(before[k].timestamp <= before[j - 1].timestamp);
    }
    lemma_newest_first_head(after, m.peer_id, None, k);
}

/// Once a message is saved, the store holds its identity: by the contract of
/// `save_message`, saving it again fails as a duplicate and changes nothing.
pub proof fn law_save_twice_is_duplicate(before: Seq<MessageView>, m: MessageView, after: Seq<MessageView>)
    requires
        saved(before, m, after),
    ensures
        has_message(after, m.id),
{
    let k = choose|k: int| time_slot(before, m.timestamp, k) && after == before.insert(k, m);
    assert(after[k] == m);
}

/// Marking a message delivered leaves no undelivered message with that
/// identity, so marking it again reports no change and changes nothing.
pub proof fn law_mark_delivered_idempotent(
    before: Seq<MessageView>,
    id: Seq<char>,
    changed: bool,
    after: Seq<MessageView>,
)
    requires
        messages_wf(before),
        marked(before, id, changed, after),
    ensures
        forall|i: int| !undelivered_at(after, id, i),
        marked(after, id, false, after),
{
    if changed {
        let k = choose|k: int| undelivered_at(before, id, k) && after == delivered_at(before, k);
        assert forall|i: int| !undelivered_at(after, id, i) by {
            if 0 <= i < after.len() && i != k {
                assert(before[i].id != before[k].id);
            }
        }
    }
}

} // verus!
