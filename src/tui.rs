//! State of the terminal client and how input and daemon messages change it.
//!
//! The client keeps the peer list, the conversations it has loaded, the text
//! being typed with its cursor, the focused panel and a status line. Drawing
//! is left to the caller.
use vstd::prelude::*;
use vstd::string::*;
use crate::ipc::ServerMessage;
use crate::store::{find_peer, has_peer, message_views, peer_views};
use crate::types::{Message, MessageId, MessageView, PeerId, PeerInfo, PeerView};

verus! {

/// Relies on String::push: appends one character.
#[verifier::external_body]
fn push_char(s: &mut String, c: char)
    ensures
        final(s)@ == old(s)@.push(c),
{
    s.push(c)
}

/// The decimal digits of `n`.
pub open spec fn decimal(n: nat) -> Seq<char>
    decreases n,
{
    if n < 10 {
        seq![((48 + n) as u8) as char]
    } else {
        decimal(n / 10).push(((48 + (n % 10)) as u8) as char)
    }
}

/// The text of `c`.
pub fn text_of(c: &Vec<char>) -> (r: String)
    ensures
        r@ == c@,
{
    let mut s = String::new();
    let mut i: usize = 0;
    while i < c.len()
        invariant
            i <= c@.len(),
            s@ == c@.subrange(0, i as int),
        decreases c@.len() - i,
    {
        push_char(&mut s, c[i]);
        assert(s@ =~= c@.subrange(0, i + 1));
        i = i + 1;
    }
    assert(c@.subrange(0, i as int) =~= c@);
    s
}

/// The decimal text of `n`.
pub fn decimal_text(n: usize) -> (r: String)
    ensures
        r@ == decimal(n as nat),
    decreases n,
{
    if n < 10 {
        let mut s = String::new();
        push_char(&mut s, (48u8 + n as u8) as char);
        assert(s@ =~= decimal(n as nat));
        s
    } else {
        let mut s = decimal_text(n / 10);
        push_char(&mut s, (48u8 + (n % 10) as u8) as char);
        s
    }
}

/// The status line that reports `n` peers.
pub open spec fn peer_count_status(n: nat) -> Seq<char> {
    decimal(n) + if n == 1 {
        seq![' ', 'p', 'e', 'e', 'r']
    } else {
        seq![' ', 'p', 'e', 'e', 'r', 's']
    }
}

/// The status line that reports `n` peers.
pub fn peer_count_text(n: usize) -> (r: String)
    ensures
        r@ == peer_count_status(n as nat),
{
    let s = decimal_text(n);
    if n == 1 {
        proof {
            reveal_strlit(" peer");
        }
        let r = s.concat(" peer");
        assert(r@ =~= peer_count_status(n as nat));
        r
    } else {
        proof {
            reveal_strlit(" peers");
        }
        let r = s.concat(" peers");
        assert(r@ =~= peer_count_status(n as nat));
        r
    }
}


/// The selection after the peer list was replaced by one of `n` peers: a
/// selection past the end moves to the last peer, and the first peer is
/// selected when there was no selection.
pub open spec fn reselect(sel: Option<usize>, n: nat) -> Option<usize> {
    match sel {
        Some(i) => if i >= n {
            if n == 0 {
                None
            } else {
                Some((n - 1) as usize)
            }
        } else {
            Some(i)
        },
        None => if n > 0 {
            Some(0usize)
        } else {
            None
        },
    }
}

/// A conversation as plain values: the peer and its messages.
pub type ConversationView = (Seq<char>, Seq<MessageView>);

/// The index of the first peer of `s` with identity `id`.
pub open spec fn first_with(s: Seq<PeerView>, id: Seq<char>) -> int {
    choose|i: int| 0 <= i < s.len() && s[i].id == id && forall|j: int| 0 <= j < i ==> s[j].id != id
}

/// Some conversation of `c` is with `id`.
pub open spec fn has_conversation(c: Seq<ConversationView>, id: Seq<char>) -> bool {
    exists|i: int| 0 <= i < c.len() && (#[trigger] c[i]).0 == id
}

/// The index of the first conversation of `c` with `id`.
pub open spec fn first_conversation(c: Seq<ConversationView>, id: Seq<char>) -> int {
    choose|i: int| 0 <= i < c.len() && c[i].0 == id && forall|j: int| 0 <= j < i ==> c[j].0 != id
}

/// `c` with the conversation with `id` holding `msgs`.
pub open spec fn replaced(c: Seq<ConversationView>, id: Seq<char>, msgs: Seq<MessageView>) -> Seq<
    ConversationView,
> {
    if has_conversation(c, id) {
        c.update(first_conversation(c, id), (id, msgs))
    } else {
        c.push((id, msgs))
    }
}

/// `c` with `m` added at the end of the conversation with `id`.
pub open spec fn appended(c: Seq<ConversationView>, id: Seq<char>, m: MessageView) -> Seq<
    ConversationView,
> {
    if has_conversation(c, id) {
        let k = first_conversation(c, id);
        c.update(k, (id, c[k].1.push(m)))
    } else {
        c.push((id, seq![m]))
    }
}

/// The peer list after `p` came online: the first record of its identity
/// takes its name and addresses and is marked online; an unknown peer is
/// added at the end.
pub open spec fn came_online(s: Seq<PeerView>, p: PeerView) -> Seq<PeerView> {
    if has_peer(s, p.id) {
        let k = first_with(s, p.id);
        s.update(
            k,
            PeerView { online: true, display_name: p.display_name, addresses: p.addresses, ..s[k] },
        )
    } else {
        s.push(p)
    }
}

/// The peer list after `id` went offline.
pub open spec fn went_offline(s: Seq<PeerView>, id: Seq<char>) -> Seq<PeerView> {
    if has_peer(s, id) {
        let k = first_with(s, id);
        s.update(k, PeerView { online: false, ..s[k] })
    } else {
        s
    }
}

/// Some message of `m` has identity `id`.
pub open spec fn holds_message(m: Seq<MessageView>, id: Seq<char>) -> bool {
    exists|j: int| 0 <= j < m.len() && (#[trigger] m[j]).id == id
}

/// The index of the first message of `m` with identity `id`.
pub open spec fn first_message(m: Seq<MessageView>, id: Seq<char>) -> int {
    choose|j: int| 0 <= j < m.len() && m[j].id == id && forall|q: int| 0 <= q < j ==> m[q].id != id
}

/// The index of the first conversation of `c` holding a message `id`.
pub open spec fn first_holding(c: Seq<ConversationView>, id: Seq<char>) -> int {
    choose|k: int|
        0 <= k < c.len() && holds_message(c[k].1, id) && forall|q: int|
            0 <= q < k ==> !holds_message(#[trigger] c[q].1, id)
}

/// The conversations after the message `id` was delivered: its first copy,
/// in the first conversation holding it, is marked delivered.
pub open spec fn delivered_in(c: Seq<ConversationView>, id: Seq<char>) -> Seq<ConversationView> {
    if exists|k: int| 0 <= k < c.len() && holds_message((#[trigger] c[k]).1, id) {
        let k = first_holding(c, id);
        let j = first_message(c[k].1, id);
        c.update(k, (c[k].0, c[k].1.update(j, MessageView { delivered: true, ..c[k].1[j] })))
    } else {
        c
    }
}

/// The status line reporting an error reply.
pub open spec fn error_status(code: Seq<char>, message: Seq<char>) -> Seq<char> {
    seq!['E', 'r', 'r', 'o', 'r', ' ', '['] + code + seq![']', ':', ' '] + message
}

/// `a` and `b` agree on everything but the conversations.
pub open spec fn same_but_conversations(a: TuiApp, b: TuiApp) -> bool {
    &&& a.peers == b.peers
    &&& a.selected_peer_idx == b.selected_peer_idx
    &&& a.input == b.input
    &&& a.input_cursor == b.input_cursor
    &&& a.focused == b.focused
    &&& a.messages_scroll == b.messages_scroll
    &&& a.our_name == b.our_name
    &&& a.our_peer_id == b.our_peer_id
    &&& a.status == b.status
    &&& a.should_quit == b.should_quit
}

/// `new` is the client after applying the daemon's message `msg` to `old`.
pub open spec fn applied(old: TuiApp, msg: ServerMessage, new: TuiApp) -> bool {
    &&& new.input == old.input
    &&& new.input_cursor == old.input_cursor
    &&& new.focused == old.focused
    &&& new.should_quit == old.should_quit
    &&& (!(msg is Config) ==> new.our_name == old.our_name && new.our_peer_id == old.our_peer_id)
    &&& (!(msg is NewMessage) ==> new.messages_scroll == old.messages_scroll)
    &&& (!(msg is PeerList) ==> new.selected_peer_idx == old.selected_peer_idx)
    &&& (msg matches ServerMessage::PeerList { peers } ==> {
        &&& new.peers == peers
        &&& new.selected_peer_idx == reselect(old.selected_peer_idx, peers@.len())
        &&& new.status@ == peer_count_status(peers@.len())
        &&& new.messages == old.messages
    })
    &&& (msg matches ServerMessage::Messages { messages } ==> {
        &&& new.peers == old.peers
        &&& new.selected_peer_idx == old.selected_peer_idx
        &&& new.status == old.status
        &&& if messages@.len() == 0 {
            new.messages == old.messages
        } else {
            new.conversations() == replaced(
                old.conversations(),
                messages@[0].peer_id@,
                message_views(messages@).reverse(),
            )
        }
    })
    &&& (msg matches ServerMessage::NewMessage { message } ==> {
        &&& new.peers == old.peers
        &&& new.selected_peer_idx == old.selected_peer_idx
        &&& new.status == old.status
        &&& new.messages_scroll == 0
        &&& new.conversations() == appended(
            old.conversations(),
            message@.peer_id,
            message@,
        )
    })
    &&& (msg matches ServerMessage::PeerOnline { peer } ==> {
        &&& new.selected_peer_idx == old.selected_peer_idx
        &&& new.messages == old.messages
        &&& peer_views(new.peers@) == came_online(peer_views(old.peers@), peer@)
        &&& new.status@ == peer_count_status(new.peers@.len())
    })
    &&& (msg matches ServerMessage::PeerOffline { peer_id } ==> {
        &&& new.selected_peer_idx == old.selected_peer_idx
        &&& new.messages == old.messages
        &&& new.status == old.status
        &&& peer_views(new.peers@) == went_offline(peer_views(old.peers@), peer_id@)
    })
    &&& (msg matches ServerMessage::MessageDelivered { message_id } ==> {
        &&& new.peers == old.peers
        &&& new.selected_peer_idx == old.selected_peer_idx
        &&& new.status == old.status
        &&& new.conversations() == delivered_in(old.conversations(), message_id@)
    })
    &&& (msg matches ServerMessage::Config { display_name, peer_id } ==> {
        &&& new.our_name == display_name
        &&& new.our_peer_id == Some(peer_id)
        &&& new.peers == old.peers
        &&& new.messages == old.messages
        &&& new.status == old.status
    })
    &&& (msg matches ServerMessage::Error { code, message } ==> {
        &&& new.status@ == error_status(code@, message@)
        &&& new.peers == old.peers
        &&& new.messages == old.messages
    })
    &&& ((msg is Done || msg is MessageSent) ==> new == old)
}

/// `a` and `b` agree on everything but the input and its cursor.
pub open spec fn same_but_input(a: TuiApp, b: TuiApp) -> bool {
    &&& a.peers == b.peers
    &&& a.selected_peer_idx == b.selected_peer_idx
    &&& a.messages == b.messages
    &&& a.focused == b.focused
    &&& a.messages_scroll == b.messages_scroll
    &&& a.our_name == b.our_name
    &&& a.our_peer_id == b.our_peer_id
    &&& a.status == b.status
    &&& a.should_quit == b.should_quit
}

proof fn lemma_first_with(s: Seq<PeerView>, id: Seq<char>, k: int)
    requires
        0 <= k < s.len(),
        s[k].id == id,
        forall|j: int| 0 <= j < k ==> s[j].id != id,
    ensures
        first_with(s, id) == k,
{
    let i = first_with(s, id);
    assert(0 <= i < s.len() && s[i].id == id && forall|j: int| 0 <= j < i ==> s[j].id != id);
    if i < k {
        assert(s[i].id != id);
    } else if i > k {
        assert(s[k].id != id);
    }
}

proof fn lemma_first_conversation(c: Seq<ConversationView>, id: Seq<char>, k: int)
    requires
        0 <= k < c.len(),
        c[k].0 == id,
        forall|j: int| 0 <= j < k ==> c[j].0 != id,
    ensures
        first_conversation(c, id) == k,
{
    let i = first_conversation(c, id);
    assert(0 <= i < c.len() && c[i].0 == id && forall|j: int| 0 <= j < i ==> c[j].0 != id);
    if i < k {
        assert(c[i].0 != id);
    } else if i > k {
        assert(c[k].0 != id);
    }
}

proof fn lemma_first_message(m: Seq<MessageView>, id: Seq<char>, k: int)
    requires
        0 <= k < m.len(),
        m[k].id == id,
        forall|j: int| 0 <= j < k ==> m[j].id != id,
    ensures
        first_message(m, id) == k,
{
    let i = first_message(m, id);
    assert(0 <= i < m.len() && m[i].id == id && forall|j: int| 0 <= j < i ==> m[j].id != id);
    if i < k {
        assert(m[i].id != id);
    } else if i > k {
        assert(m[k].id != id);
    }
}

proof fn lemma_first_holding(c: Seq<ConversationView>, id: Seq<char>, k: int)
    requires
        0 <= k < c.len(),
        holds_message(c[k].1, id),
        forall|j: int| 0 <= j < k ==> !holds_message(#[trigger] c[j].1, id),
    ensures
        first_holding(c, id) == k,
{
    let i = first_holding(c, id);
    assert(0 <= i < c.len() && holds_message(c[i].1, id) && forall|q: int|
        0 <= q < i ==> !holds_message(#[trigger] c[q].1, id));
    if i < k {
        assert(!holds_message(c[i].1, id));
    } else if i > k {
        assert(!holds_message(c[k].1, id));
    }
}

/// The index of the first message of `v` with identity `id`, if any.
fn find_message(v: &Vec<Message>, id: &MessageId) -> (r: Option<usize>)
    ensures
        match r {
            Some(j) => j < v@.len() && message_views(v@)[j as int].id == id@ && forall|q: int|
                0 <= q < j ==> (#[trigger] message_views(v@)[q]).id != id@,
            None => !holds_message(message_views(v@), id@),
        },
{
    let mut j: usize = 0;
    while j < v.len()
        invariant
            j <= v@.len(),
            forall|q: int| 0 <= q < j ==> (#[trigger] message_views(v@)[q]).id != id@,
        decreases v@.len() - j,
    {
        if v[j].id == *id {
            return Some(j);
        }
        j = j + 1;
    }
    None
}

/// The messages of `v` in reverse order.
pub fn reversed_messages(v: Vec<Message>) -> (r: Vec<Message>)
    ensures
        message_views(r@) == message_views(v@).reverse(),
{
    let ghost mv = message_views(v@);
    let mut out: Vec<Message> = Vec::new();
    let mut i: usize = v.len();
    while i > 0
        invariant
            i <= v@.len(),
            mv == message_views(v@),
            message_views(out@) == mv.subrange(i as int, mv.len() as int).reverse(),
        decreases i,
    {
        let ghost before = out@;
        out.push(v[i - 1].clone());
        assert(message_views(out@) =~= message_views(before).push(mv[i - 1]));
        assert(mv.subrange(i - 1, mv.len() as int).reverse() =~= mv.subrange(i as int, mv.len() as int).reverse().push(mv[i - 1]));
        i = i - 1;
    }
    assert(mv.subrange(0, mv.len() as int) =~= mv);
    out
}

/// Which panel has the keyboard.
#[derive(Debug, Clone, Copy, PartialEq, Eq, Structural)]
pub enum FocusedPanel {
    PeerList,
    Messages,
    Input,
}

/// The panel after `f` in the cycle peer list, messages, input.
pub open spec fn next_panel(f: FocusedPanel) -> FocusedPanel {
    match f {
        FocusedPanel::PeerList => FocusedPanel::Messages,
        FocusedPanel::Messages => FocusedPanel::Input,
        FocusedPanel::Input => FocusedPanel::PeerList,
    }
}

/// What the user or the daemon asks of the client.
#[derive(Debug)]
pub enum Action {
    Quit,
    NextFocus,
    NextPeer,
    PrevPeer,
    ScrollUp,
    ScrollDown,
    InputChar(char),
    InputBackspace,
    InputDelete,
    InputLeft,
    InputRight,
    InputHome,
    InputEnd,
    /// Send the typed text; the caller sends it and takes the input.
    SendMessage,
    ServerMessage(ServerMessage),
}

/// The messages exchanged with one peer, oldest first.
#[derive(Debug)]
pub struct Conversation {
    pub peer_id: PeerId,
    pub messages: Vec<Message>,
}

/// A conversation as plain values.
pub open spec fn conversation_view(c: Conversation) -> (Seq<char>, Seq<MessageView>) {
    (c.peer_id@, message_views(c.messages@))
}

/// The client's state.
#[derive(Debug)]
pub struct TuiApp {
    pub peers: Vec<PeerInfo>,
    pub selected_peer_idx: Option<usize>,
    pub messages: Vec<Conversation>,
    /// The text being typed.
    pub input: Vec<char>,
    /// The cursor, as a number of characters before it.
    pub input_cursor: usize,
    pub focused: FocusedPanel,
    /// Lines scrolled back from the newest message.
    pub messages_scroll: u16,
    pub our_name: String,
    pub our_peer_id: Option<PeerId>,
    pub status: String,
    pub should_quit: bool,
}

impl TuiApp {
    /// The conversations as plain values.
    pub open spec fn conversations(&self) -> Seq<(Seq<char>, Seq<MessageView>)> {
        self.messages@.map_values(|c: Conversation| conversation_view(c))
    }

    /// The client's invariant: the cursor lies within the input, the
    /// selection within the peer list, and one conversation per peer.
    pub open spec fn wf(&self) -> bool {
        &&& self.input_cursor <= self.input@.len()
        &&& (self.selected_peer_idx matches Some(i) ==> i < self.peers@.len())
        &&& forall|i: int, j: int|
            0 <= i < self.messages@.len() && 0 <= j < self.messages@.len() && i != j ==> (
            #[trigger] self.messages@[i]).peer_id@ != (#[trigger] self.messages@[j]).peer_id@
    }

    /// A client with nothing loaded yet.
    pub fn new() -> (r: Self)
        ensures
            r.wf(),
            r.peers@.len() == 0,
            r.selected_peer_idx is None,
            r.messages@.len() == 0,
            r.input@.len() == 0,
            r.input_cursor == 0,
            r.focused == FocusedPanel::PeerList,
            r.messages_scroll == 0,
            r.our_name@.len() == 0,
            r.our_peer_id is None,
            r.status@ == "Connecting..."@,
            !r.should_quit,
    {
        TuiApp {
            peers: Vec::new(),
            selected_peer_idx: None,
            messages: Vec::new(),
            input: Vec::new(),
            input_cursor: 0,
            focused: FocusedPanel::PeerList,
            messages_scroll: 0,
            our_name: String::new(),
            our_peer_id: None,
            status: String::from_str("Connecting..."),
            should_quit: false,
        }
    }

    /// The selected peer, if any.
    pub fn selected_peer(&self) -> (r: Option<&PeerInfo>)
        requires
            self.wf(),
        ensures
            match self.selected_peer_idx {
                Some(i) => r matches Some(p) && *p == self.peers@[i as int],
                None => r is None,
            },
    {
        match self.selected_peer_idx {
            Some(i) => Some(&self.peers[i]),
            None => None,
        }
    }

    /// The identity of the selected peer, if any.
    pub fn selected_peer_id(&self) -> (r: Option<&PeerId>)
        requires
            self.wf(),
        ensures
            match self.selected_peer_idx {
                Some(i) => r matches Some(p) && *p == self.peers@[i as int].id,
                None => r is None,
            },
    {
        match self.selected_peer() {
            Some(p) => Some(&p.id),
            None => None,
        }
    }

    /// The index of the conversation with `id`, if loaded.
    fn find_conversation(&self, id: &PeerId) -> (r: Option<usize>)
        ensures
            match r {
                Some(i) => i < self.messages@.len() && self.messages@[i as int].peer_id@ == id@
                    && forall|j: int| 0 <= j < i ==> (#[trigger] self.messages@[j]).peer_id@ != id@,
                None => forall|i: int|
                    0 <= i < self.messages@.len() ==> (#[trigger] self.messages@[i]).peer_id@ != id@,
            },
    {
        let mut i: usize = 0;
        while i < self.messages.len()
            invariant
                i <= self.messages@.len(),
                forall|j: int| 0 <= j < i ==> (#[trigger] self.messages@[j]).peer_id@ != id@,
            decreases self.messages@.len() - i,
        {
            if self.messages[i].peer_id == *id {
                return Some(i);
            }
            i = i + 1;
        }
        None
    }

    /// The messages with the selected peer, oldest first; none when no peer
    /// is selected or none were loaded.
    pub fn current_messages(&self) -> (r: &[Message])
        requires
            self.wf(),
        ensures
            match self.selected_peer_idx {
                Some(i) => {
                    let id = self.peers@[i as int].id@;
                    if exists|c: int| 0 <= c < self.messages@.len() && (#[trigger] self.messages@[c]).peer_id@ == id {
                        exists|c: int|
                            0 <= c < self.messages@.len() && (#[trigger] self.messages@[c]).peer_id@ == id
                                && r@ == self.messages@[c].messages@
                    } else {
                        r@.len() == 0
                    }
                },
                None => r@.len() == 0,
            },
    {
        match self.selected_peer_id() {
            Some(id) => match self.find_conversation(id) {
                Some(c) => self.messages[c].messages.as_slice(),
                None => &[],
            },
            None => &[],
        }
    }

    /// Takes the typed text, leaving the input empty.
    pub fn take_input(&mut self) -> (r: String)
        ensures
            r@ == old(self).input@,
            final(self).input@.len() == 0,
            final(self).input_cursor == 0,
            final(self).peers == old(self).peers,
            final(self).selected_peer_idx == old(self).selected_peer_idx,
            final(self).messages == old(self).messages,
            final(self).focused == old(self).focused,
            final(self).status == old(self).status,
            final(self).messages_scroll == old(self).messages_scroll,
            final(self).our_name == old(self).our_name,
            final(self).our_peer_id == old(self).our_peer_id,
            final(self).should_quit == old(self).should_quit,
    {
        let content = text_of(&self.input);
        self.input.clear();
        self.input_cursor = 0;
        content
    }


    /// Makes `msgs` the conversation with `id`.
    fn replace_conversation(&mut self, id: PeerId, msgs: Vec<Message>)
        requires
            old(self).wf(),
        ensures
            final(self).wf(),
            same_but_conversations(*final(self), *old(self)),
            final(self).conversations() == replaced(old(self).conversations(), id@, message_views(msgs@)),
    {
        let ghost cv = self.conversations();
        match self.find_conversation(&id) {
            Some(k) => {
                proof {
                    assert(cv[k as int].0 == id@);
                    lemma_first_conversation(cv, id@, k as int);
                }
                let ghost idv = id@;
                self.messages.set(k, Conversation { peer_id: id, messages: msgs });
                assert(self.conversations() =~= cv.update(k as int, (idv, message_views(msgs@))));
            },
            None => {
                let ghost idv = id@;
                let ghost mm = message_views(msgs@);
                self.messages.push(Conversation { peer_id: id, messages: msgs });
                assert(self.conversations() =~= cv.push((idv, mm)));
                assert(!has_conversation(cv, idv));
            },
        }
    }

    /// Adds `m` at the end of the conversation with its peer.
    fn append_message(&mut self, m: Message)
        requires
            old(self).wf(),
        ensures
            final(self).wf(),
            same_but_conversations(*final(self), *old(self)),
            final(self).conversations() == appended(old(self).conversations(), m@.peer_id, m@),
    {
        let ghost cv = self.conversations();
        let ghost mv = m@;
        match self.find_conversation(&m.peer_id) {
            Some(k) => {
                proof {
                    assert(cv[k as int].0 == m@.peer_id);
                    lemma_first_conversation(cv, m@.peer_id, k as int);
                }
                let mut msgs = self.messages[k].messages.clone();
                assert(message_views(msgs@) =~= cv[k as int].1);
                msgs.push(m);
                assert(message_views(msgs@) =~= cv[k as int].1.push(mv));
                let ghost old_msgs = self.messages@;
                let conv = Conversation { peer_id: self.messages[k].peer_id.clone(), messages: msgs };
                assert(conversation_view(conv) == (mv.peer_id, cv[k as int].1.push(mv)));
                self.messages.set(k, conv);
                assert(self.conversations() =~= cv.update(k as int, (mv.peer_id, cv[k as int].1.push(mv))));
                assert forall|i: int| 0 <= i < self.messages@.len() implies (#[trigger] self.messages@[i]).peer_id@ == old_msgs[i].peer_id@ by {}
            },
            None => {
                let id = m.peer_id.clone();
                let mut msgs: Vec<Message> = Vec::new();
                msgs.push(m);
                assert(message_views(msgs@) =~= seq![mv]);
                self.messages.push(Conversation { peer_id: id, messages: msgs });
                assert(self.conversations() =~= cv.push((mv.peer_id, seq![mv])));
            },
        }
    }

    /// Marks the message `id` delivered where it is first found.
    fn mark_delivered(&mut self, id: &MessageId)
        requires
            old(self).wf(),
        ensures
            final(self).wf(),
            same_but_conversations(*final(self), *old(self)),
            final(self).conversations() == delivered_in(old(self).conversations(), id@),
    {
        let ghost cv = self.conversations();
        let mut k: usize = 0;
        while k < self.messages.len()
            invariant
                k <= self.messages@.len(),
                *self == *old(self),
                self.wf(),
                cv == self.conversations(),
                forall|q: int| 0 <= q < k ==> !holds_message(#[trigger] cv[q].1, id@),
            decreases self.messages@.len() - k,
        {
            let ghost mv = cv[k as int].1;
            match find_message(&self.messages[k].messages, id) {
                Some(j) => {
                    proof {
                        assert(mv[j as int].id == id@);
                        lemma_first_holding(cv, id@, k as int);
                        lemma_first_message(mv, id@, j as int);
                    }
                    let mut msgs = self.messages[k].messages.clone();
                    assert(message_views(msgs@) =~= mv);
                    let mut m = msgs[j].clone();
                    m.delivered = true;
                    msgs.set(j, m);
                    assert(message_views(msgs@) =~= mv.update(
                        j as int,
                        MessageView { delivered: true, ..mv[j as int] },
                    ));
                    let ghost old_msgs = self.messages@;
                    let conv = Conversation { peer_id: self.messages[k].peer_id.clone(), messages: msgs };
                    self.messages.set(k, conv);
                    assert(self.conversations() =~= delivered_in(cv, id@));
                    assert forall|i: int| 0 <= i < self.messages@.len() implies (#[trigger] self.messages@[i]).peer_id@ == old_msgs[i].peer_id@ by {}
                    assert forall|a: int, b: int|
                        0 <= a < self.messages@.len() && 0 <= b < self.messages@.len() && a != b implies (
                        #[trigger] self.messages@[a]).peer_id@ != (#[trigger] self.messages@[b]).peer_id@ by {
                        assert(old_msgs[a].peer_id@ != old_msgs[b].peer_id@);
                    }
                    return;
                },
                None => {},
            }
            k = k + 1;
        }
        assert(!exists|q: int| 0 <= q < cv.len() && holds_message((#[trigger] cv[q]).1, id@));
    }

    /// Applies a message from the daemon.
    pub fn handle_server_message(&mut self, msg: ServerMessage)
        requires
            old(self).wf(),
        ensures
            final(self).wf(),
            applied(*old(self), msg, *final(self)),
    {
        match msg {
            ServerMessage::PeerList { peers } => {
                let n = peers.len();
                self.peers = peers;
                match self.selected_peer_idx {
                    Some(idx) => {
                        if idx >= n {
                            self.selected_peer_idx = if n == 0 {
                                None
                            } else {
                                Some(n - 1)
                            };
                        }
                    },
                    None => {
                        if n > 0 {
                            self.selected_peer_idx = Some(0);
                        }
                    },
                }
                self.status = peer_count_text(n);
            },
            ServerMessage::Messages { messages } => {
                if messages.len() > 0 {
                    let peer_id = messages[0].peer_id.clone();
                    let reversed = reversed_messages(messages);
                    self.replace_conversation(peer_id, reversed);
                }
            },
            ServerMessage::NewMessage { message } => {
                self.append_message(message);
                self.messages_scroll = 0;
            },
            ServerMessage::MessageSent { .. } => {},
            ServerMessage::PeerOnline { peer } => {
                let ghost pv = peer_views(self.peers@);
                match find_peer(&self.peers, &peer.id) {
                    Some(k) => {
                        let mut p = self.peers[k].clone();
                        p.online = true;
                        p.display_name = peer.display_name;
                        p.addresses = peer.addresses;
                        self.peers.set(k, p);
                        proof {
                            assert(pv[k as int].id == peer@.id);
                            lemma_first_with(pv, peer@.id, k as int);
                        }
                        assert(peer_views(self.peers@) =~= came_online(pv, peer@));
                    },
                    None => {
                        let ghost pp = peer@;
                        self.peers.push(peer);
                        assert(peer_views(self.peers@) =~= pv.push(pp));
                    },
                }
                self.status = peer_count_text(self.peers.len());
            },
            ServerMessage::PeerOffline { peer_id } => {
                let ghost pv = peer_views(self.peers@);
                match find_peer(&self.peers, &peer_id) {
                    Some(k) => {
                        let mut p = self.peers[k].clone();
                        p.online = false;
                        self.peers.set(k, p);
                        proof {
                            assert(pv[k as int].id == peer_id@);
                            lemma_first_with(pv, peer_id@, k as int);
                        }
                        assert(peer_views(self.peers@) =~= went_offline(pv, peer_id@));
                    },
                    None => {},
                }
            },
            ServerMessage::MessageDelivered { message_id } => {
                self.mark_delivered(&message_id);
            },
            ServerMessage::Config { display_name, peer_id } => {
                self.our_name = display_name;
                self.our_peer_id = Some(peer_id);
            },
            ServerMessage::Error { code, message } => {
                let s = String::from_str("Error [").concat(code.as_str()).concat("]: ").concat(
                    message.as_str(),
                );
                proof {
                    reveal_strlit("Error [");
                    reveal_strlit("]: ");
                }
                assert(s@ =~= error_status(code@, message@));
                self.status = s;
            },
            ServerMessage::Done => {},
        }
    }

    /// Applies one action.
    pub fn handle_action(&mut self, action: Action)
        requires
            old(self).wf(),
        ensures
            final(self).wf(),
            action is Quit ==> *final(self) == (TuiApp { should_quit: true, ..*old(self) }),
            action is NextFocus ==> *final(self) == (TuiApp {
                focused: next_panel(old(self).focused),
                ..*old(self)
            }),
            action is NextPeer ==> if old(self).peers@.len() == 0 {
                *final(self) == *old(self)
            } else {
                *final(self) == (TuiApp {
                    selected_peer_idx: Some(
                        match old(self).selected_peer_idx {
                            Some(i) => if i + 1 < old(self).peers@.len() {
                                (i + 1) as usize
                            } else {
                                (old(self).peers@.len() - 1) as usize
                            },
                            None => 0usize,
                        },
                    ),
                    messages_scroll: 0,
                    ..*old(self)
                })
            },
            action is PrevPeer ==> if old(self).peers@.len() == 0 {
                *final(self) == *old(self)
            } else {
                *final(self) == (TuiApp {
                    selected_peer_idx: Some(
                        match old(self).selected_peer_idx {
                            Some(i) => if i > 0 {
                                (i - 1) as usize
                            } else {
                                0usize
                            },
                            None => 0usize,
                        },
                    ),
                    messages_scroll: 0,
                    ..*old(self)
                })
            },
            action is ScrollUp ==> *final(self) == (TuiApp {
                messages_scroll: if old(self).messages_scroll <= u16::MAX - 3 {
                    (old(self).messages_scroll + 3) as u16
                } else {
                    u16::MAX
                },
                ..*old(self)
            }),
            action is ScrollDown ==> *final(self) == (TuiApp {
                messages_scroll: if old(self).messages_scroll >= 3 {
                    (old(self).messages_scroll - 3) as u16
                } else {
                    0u16
                },
                ..*old(self)
            }),
            action matches Action::InputChar(c) ==> {
                &&& final(self).input@ == old(self).input@.insert(old(self).input_cursor as int, c)
                &&& final(self).input_cursor == old(self).input_cursor + 1
                &&& same_but_input(*final(self), *old(self))
            },
            action is InputBackspace ==> if old(self).input_cursor > 0 {
                &&& final(self).input@ == old(self).input@.remove(old(self).input_cursor - 1)
                &&& final(self).input_cursor == old(self).input_cursor - 1
                &&& same_but_input(*final(self), *old(self))
            } else {
                *final(self) == *old(self)
            },
            action is InputDelete ==> if old(self).input_cursor < old(self).input@.len() {
                &&& final(self).input@ == old(self).input@.remove(old(self).input_cursor as int)
                &&& final(self).input_cursor == old(self).input_cursor
                &&& same_but_input(*final(self), *old(self))
            } else {
                *final(self) == *old(self)
            },
            action is InputLeft ==> *final(self) == (TuiApp {
                input_cursor: if old(self).input_cursor > 0 {
                    (old(self).input_cursor - 1) as usize
                } else {
                    0usize
                },
                ..*old(self)
            }),
            action is InputRight ==> *final(self) == (TuiApp {
                input_cursor: if old(self).input_cursor < old(self).input@.len() {
                    (old(self).input_cursor + 1) as usize
                } else {
                    old(self).input_cursor
                },
                ..*old(self)
            }),
            action is InputHome ==> *final(self) == (TuiApp { input_cursor: 0, ..*old(self) }),
            action is InputEnd ==> *final(self) == (TuiApp {
                input_cursor: old(self).input@.len() as usize,
                ..*old(self)
            }),
            action is SendMessage ==> *final(self) == *old(self),
            action matches Action::ServerMessage(m) ==> applied(*old(self), m, *final(self)),
    {
        match action {
            Action::Quit => {
                self.should_quit = true;
            },
            Action::NextFocus => {
                self.focused = match self.focused {
                    FocusedPanel::PeerList => FocusedPanel::Messages,
                    FocusedPanel::Messages => FocusedPanel::Input,
                    FocusedPanel::Input => FocusedPanel::PeerList,
                };
            },
            Action::NextPeer => {
                if self.peers.len() == 0 {
                    return;
                }
                self.selected_peer_idx = Some(
                    match self.selected_peer_idx {
                        Some(idx) => if idx + 1 < self.peers.len() {
                            idx + 1
                        } else {
                            self.peers.len() - 1
                        },
                        None => 0,
                    },
                );
                self.messages_scroll = 0;
            },
            Action::PrevPeer => {
                if self.peers.len() == 0 {
                    return;
                }
                self.selected_peer_idx = Some(
                    match self.selected_peer_idx {
                        Some(idx) => if idx > 0 {
                            idx - 1
                        } else {
                            0
                        },
                        None => 0,
                    },
                );
                self.messages_scroll = 0;
            },
            Action::ScrollUp => {
                self.messages_scroll = self.messages_scroll.saturating_add(3);
            },
            Action::ScrollDown => {
                self.messages_scroll = self.messages_scroll.saturating_sub(3);
            },
            Action::InputChar(ch) => {
                self.input.insert(self.input_cursor, ch);
                let n = self.input.len();
                assert(self.input_cursor < n);
                self.input_cursor = self.input_cursor + 1;
            },
            Action::InputBackspace => {
                if self.input_cursor > 0 {
                    self.input.remove(self.input_cursor - 1);
                    self.input_cursor = self.input_cursor - 1;
                }
            },
            Action::InputDelete => {
                if self.input_cursor < self.input.len() {
                    self.input.remove(self.input_cursor);
                }
            },
            Action::InputLeft => {
                if self.input_cursor > 0 {
                    self.input_cursor = self.input_cursor - 1;
                }
            },
            Action::InputRight => {
                if self.input_cursor < self.input.len() {
                    self.input_cursor = self.input_cursor + 1;
                }
            },
            Action::InputHome => {
                self.input_cursor = 0;
            },
            Action::InputEnd => {
                self.input_cursor = self.input.len();
            },
            Action::SendMessage => {},
            Action::ServerMessage(msg) => {
                self.handle_server_message(msg);
            },
        }
    }
}

} // verus!
