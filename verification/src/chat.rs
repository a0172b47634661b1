use vstd::prelude::*;
use vstd::string::StringExecFns;
use crate::text::trim;

verus! {

/// Reply to a `/join` without a room name.
pub const ROOM_NAME_REQUIRED: &'static str = "!!! room name is required";

/// Reply to a `/name` without a name.
pub const NAME_REQUIRED: &'static str = "!!! name is required";

/// Reply to a successful `/join`.
pub const JOINED: &'static str = "joined";

/// The prefix of the reply to an unknown command.
pub const UNKNOWN_COMMAND_PREFIX: &'static str = "!!! unknown command: ";

/// The state of one websocket chat session that its decisions depend on:
/// the session id the chat server gave it, the room it is in, and the
/// name its peer chose.
pub struct WsChatSession {
    pub id: usize,
    pub room: String,
    pub name: Option<String>,
}

/// A frame received from the peer, or a protocol failure.
pub enum ChatEvent {
    Ping(Vec<u8>),
    Pong,
    Text(String),
    Binary,
    Close,
    Continuation,
    Nop,
    ProtocolError,
}

/// What the session asks its runtime to do, in order.
pub enum ChatAction {
    /// Stop the session.
    Stop,
    /// Record that the peer is alive now.
    RefreshHeartbeat,
    /// Answer a ping with the same payload.
    Pong(Vec<u8>),
    /// Make a new asteroid and send its description to the room.
    BroadcastAsteroid,
    /// Read the game messages in this JSON array and relay them.
    HandleGameMessages(String),
    /// Ask the chat server for its rooms and reply with each name.
    ListRooms,
    /// Send this text to everyone in the session's room.
    SendToRoom(String),
    /// Tell the chat server the session joined this room.
    JoinRoom(String),
    /// Send this text to the peer.
    Reply(String),
    /// Close the connection with the peer's reason, then stop.
    Close,
}

/// A received frame as values.
pub enum ChatEventView {
    Ping(Seq<u8>),
    Pong,
    Text(Seq<char>),
    Binary,
    Close,
    Continuation,
    Nop,
    ProtocolError,
}

/// A requested action as values.
pub enum ChatActionView {
    Stop,
    RefreshHeartbeat,
    Pong(Seq<u8>),
    BroadcastAsteroid,
    HandleGameMessages(Seq<char>),
    ListRooms,
    SendToRoom(Seq<char>),
    JoinRoom(Seq<char>),
    Reply(Seq<char>),
    Close,
}

pub open spec fn event_view(e: ChatEvent) -> ChatEventView {
    match e {
        ChatEvent::Ping(p) => ChatEventView::Ping(p@),
        ChatEvent::Pong => ChatEventView::Pong,
        ChatEvent::Text(t) => ChatEventView::Text(t@),
        ChatEvent::Binary => ChatEventView::Binary,
        ChatEvent::Close => ChatEventView::Close,
        ChatEvent::Continuation => ChatEventView::Continuation,
        ChatEvent::Nop => ChatEventView::Nop,
        ChatEvent::ProtocolError => ChatEventView::ProtocolError,
    }
}

pub open spec fn action_view(a: ChatAction) -> ChatActionView {
    match a {
        ChatAction::Stop => ChatActionView::Stop,
        ChatAction::RefreshHeartbeat => ChatActionView::RefreshHeartbeat,
        ChatAction::Pong(p) => ChatActionView::Pong(p@),
        ChatAction::BroadcastAsteroid => ChatActionView::BroadcastAsteroid,
        ChatAction::HandleGameMessages(t) => ChatActionView::HandleGameMessages(t@),
        ChatAction::ListRooms => ChatActionView::ListRooms,
        ChatAction::SendToRoom(t) => ChatActionView::SendToRoom(t@),
        ChatAction::JoinRoom(t) => ChatActionView::JoinRoom(t@),
        ChatAction::Reply(t) => ChatActionView::Reply(t@),
        ChatAction::Close => ChatActionView::Close,
    }
}

pub open spec fn actions_view(v: Seq<ChatAction>) -> Seq<ChatActionView> {
    v.map_values(|a: ChatAction| action_view(a))
}

pub open spec fn name_view(n: Option<String>) -> Option<Seq<char>> {
    match n {
        Some(s) => Some(s@),
        None => None,
    }
}

/// The text before the first space, and the text after it if there is
/// one, as `splitn(2, ' ')` splits.
pub open spec fn split_space(m: Seq<char>) -> (Seq<char>, Option<Seq<char>>)
    decreases m.len(),
{
    if m.len() == 0 {
        (Seq::empty(), None)
    } else if m[0] == ' ' {
        (Seq::empty(), Some(m.drop_first()))
    } else {
        let (a, b) = split_space(m.drop_first());
        (seq![m[0]] + a, b)
    }
}

/// How `{:?}` writes a string: quoted, with special characters escaped.
pub uninterp spec fn debug_text(s: Seq<char>) -> Seq<char>;

/// `format!("{:?}", s)`: the debug form of a string. Only the name is
/// claimed.
#[verifier::external_body]
fn debug_string(s: &str) -> (r: String)
    ensures
        r@ == debug_text(s@),
{
    format!("{:?}", s)
}

/// Whether a text frame would make the session fail: a `/messages`
/// command without its JSON argument.
pub open spec fn fails_on(e: ChatEventView) -> bool {
    e matches ChatEventView::Text(t) && trim(t) == "/messages"@
}

/// The session's next room, name and actions after a text frame.
pub open spec fn text_step(room: Seq<char>, name: Option<Seq<char>>, text: Seq<char>) -> (
    Seq<char>,
    Option<Seq<char>>,
    Seq<ChatActionView>,
) {
    let message = trim(text);
    if message.len() > 0 && message[0] == '/' {
        let (command, arg) = split_space(message);
        if command == "/messages"@ {
            (room, name, seq![ChatActionView::HandleGameMessages(arg->0)])
        } else if command == "/list"@ {
            (room, name, seq![ChatActionView::ListRooms])
        } else if command == "/join"@ {
            match arg {
                Some(r) => (r, name, seq![ChatActionView::JoinRoom(r), ChatActionView::Reply(JOINED@)]),
                None => (room, name, seq![ChatActionView::Reply(ROOM_NAME_REQUIRED@)]),
            }
        } else if command == "/name"@ {
            match arg {
                Some(n) => (room, Some(n), Seq::empty()),
                None => (room, name, seq![ChatActionView::Reply(NAME_REQUIRED@)]),
            }
        } else {
            (room, name, seq![ChatActionView::Reply(UNKNOWN_COMMAND_PREFIX@ + debug_text(message))])
        }
    } else {
        let msg = match name {
            Some(n) => n + ": "@ + message,
            None => message,
        };
        (room, name, seq![ChatActionView::SendToRoom(msg)])
    }
}

/// The session's next room, name and actions after a frame.
pub open spec fn chat_step(room: Seq<char>, name: Option<Seq<char>>, e: ChatEventView) -> (
    Seq<char>,
    Option<Seq<char>>,
    Seq<ChatActionView>,
) {
    match e {
        ChatEventView::ProtocolError => (room, name, seq![ChatActionView::Stop]),
        ChatEventView::Ping(p) => (room, name, seq![ChatActionView::RefreshHeartbeat, ChatActionView::Pong(p)]),
        ChatEventView::Pong => (room, name, seq![ChatActionView::RefreshHeartbeat, ChatActionView::BroadcastAsteroid]),
        ChatEventView::Text(t) => text_step(room, name, t),
        ChatEventView::Binary => (room, name, Seq::empty()),
        ChatEventView::Close => (room, name, seq![ChatActionView::Close]),
        ChatEventView::Continuation => (room, name, seq![ChatActionView::Stop]),
        ChatEventView::Nop => (room, name, Seq::empty()),
    }
}

/// Splits at the first space.
fn split_at_space(m: &[char]) -> (r: (Vec<char>, Option<Vec<char>>))
    ensures
        (r.0@, crate::json::opt_chars(r.1)) == split_space(m@),
{
    let n = m.len();
    let mut i: usize = 0;
    proof {
        assert(m@.skip(0) =~= m@);
        assert(m@.take(0) + split_space(m@).0 =~= split_space(m@).0);
    }
    while i < n && m[i] != ' '
        invariant
            n == m@.len(),
            i <= n,
            forall|j: int| 0 <= j < i ==> m@[j] != ' ',
            split_space(m@) == (m@.take(i as int) + split_space(m@.skip(i as int)).0, split_space(
                m@.skip(i as int),
            ).1),
        decreases n - i,
    {
        proof {
            let rest = m@.skip(i as int);
            assert(rest[0] == m@[i as int]);
            assert(rest.drop_first() =~= m@.skip(i + 1));
            assert(m@.take(i + 1) =~= m@.take(i as int) + seq![m@[i as int]]);
        }
        i = i + 1;
    }
    let head = crate::text::slice_chars(m, 0, i);
    if i < n {
        let tail = crate::text::slice_chars(m, i + 1, n);
        proof {
            let rest = m@.skip(i as int);
            assert(rest[0] == ' ');
            assert(rest.drop_first() =~= tail@);
            assert(head@ + Seq::<char>::empty() =~= head@);
        }
        (head, Some(tail))
    } else {
        proof {
            assert(m@.skip(i as int) =~= Seq::<char>::empty());
            assert(head@ + Seq::<char>::empty() =~= head@);
        }
        (head, None)
    }
}

impl WsChatSession {
    /// A fresh session in the `Main` room, without a name.
    pub fn new(id: usize) -> (s: WsChatSession)
        ensures
            s.id == id,
            s.room@ == "Main"@,
            s.name is None,
    {
        WsChatSession { id, room: "Main".to_string(), name: None }
    }

    fn text_actions(&mut self, text: &str) -> (actions: Vec<ChatAction>)
        requires
            trim(text@) != "/messages"@,
        ensures
            final(self).id == old(self).id,
            text_step(old(self).room@, name_view(old(self).name), text@) == (
                final(self).room@,
                name_view(final(self).name),
                actions_view(actions@),
            ),
    {
        proof {
            reveal_strlit("/messages");
            reveal_strlit("/list");
            reveal_strlit("/join");
            reveal_strlit("/name");
            reveal_strlit(": ");
        }
        let chars = crate::text::chars_of(text);
        let message = crate::text::trimmed(chars.as_slice());
        let mut actions: Vec<ChatAction> = Vec::new();
        if message.len() > 0 && message[0] == '/' {
            let (command, arg) = split_at_space(message.as_slice());
            let command = crate::text::string_from(command.as_slice());
            if crate::text::str_equal(command.as_str(), "/messages") {
                match arg {
                    Some(a) => {
                        actions.push(ChatAction::HandleGameMessages(crate::text::string_from(a.as_slice())));
                        proof {
                            assert(actions_view(actions@) =~= seq![ChatActionView::HandleGameMessages(a@)]);
                        }
                    },
                    None => {
                        proof {
                            assert(split_space(message@).0 == "/messages"@);
                            lemma_split_without_space(message@);
                            assert(false);
                        }
                    },
                }
            } else if crate::text::str_equal(command.as_str(), "/list") {
                actions.push(ChatAction::ListRooms);
                proof {
                    assert(actions_view(actions@) =~= seq![ChatActionView::ListRooms]);
                }
            } else if crate::text::str_equal(command.as_str(), "/join") {
                match arg {
                    Some(a) => {
                        self.room = crate::text::string_from(a.as_slice());
                        actions.push(ChatAction::JoinRoom(self.room.clone()));
                        actions.push(ChatAction::Reply(JOINED.to_string()));
                        proof {
                            assert(actions_view(actions@) =~= seq![ChatActionView::JoinRoom(a@), ChatActionView::Reply(JOINED@)]);
                        }
                    },
                    None => {
                        actions.push(ChatAction::Reply(ROOM_NAME_REQUIRED.to_string()));
                        proof {
                            assert(actions_view(actions@) =~= seq![ChatActionView::Reply(ROOM_NAME_REQUIRED@)]);
                        }
                    },
                }
            } else if crate::text::str_equal(command.as_str(), "/name") {
                match arg {
                    Some(a) => {
                        self.name = Some(crate::text::string_from(a.as_slice()));
                        proof {
                            assert(actions_view(actions@) =~= Seq::<ChatActionView>::empty());
                        }
                    },
                    None => {
                        actions.push(ChatAction::Reply(NAME_REQUIRED.to_string()));
                        proof {
                            assert(actions_view(actions@) =~= seq![ChatActionView::Reply(NAME_REQUIRED@)]);
                        }
                    },
                }
            } else {
                let m = crate::text::string_from(message.as_slice());
                let mut reply = UNKNOWN_COMMAND_PREFIX.to_string();
                let d = debug_string(m.as_str());
                reply.append(d.as_str());
                actions.push(ChatAction::Reply(reply));
                proof {
                    assert(actions_view(actions@) =~= seq![ChatActionView::Reply(UNKNOWN_COMMAND_PREFIX@ + debug_text(message@))]);
                }
            }
        } else {
            let m = crate::text::string_from(message.as_slice());
            let msg = match &self.name {
                Some(n) => {
                    let mut s = n.clone();
                    s.append(": ");
                    s.append(m.as_str());
                    s
                },
                None => m,
            };
            actions.push(ChatAction::SendToRoom(msg));
            proof {
                assert(actions_view(actions@) =~= seq![ChatActionView::SendToRoom(actions@[0]->SendToRoom_0@)]);
            }
        }
        actions
    }

    /// Handles one frame from the peer: updates the session and lists the
    /// actions to perform, in order. A `/messages` command must carry its
    /// argument.
    pub fn handle(&mut self, event: ChatEvent) -> (actions: Vec<ChatAction>)
        requires
            !fails_on(event_view(event)),
        ensures
            final(self).id == old(self).id,
            chat_step(old(self).room@, name_view(old(self).name), event_view(event)) == (
                final(self).room@,
                name_view(final(self).name),
                actions_view(actions@),
            ),
    {
        let mut actions: Vec<ChatAction> = Vec::new();
        match event {
            ChatEvent::ProtocolError => {
                actions.push(ChatAction::Stop);
            },
            ChatEvent::Ping(p) => {
                actions.push(ChatAction::RefreshHeartbeat);
                actions.push(ChatAction::Pong(p));
            },
            ChatEvent::Pong => {
                actions.push(ChatAction::RefreshHeartbeat);
                actions.push(ChatAction::BroadcastAsteroid);
            },
            ChatEvent::Text(t) => {
                return self.text_actions(t.as_str());
            },
            ChatEvent::Binary => {},
            ChatEvent::Close => {
                actions.push(ChatAction::Close);
            },
            ChatEvent::Continuation => {
                actions.push(ChatAction::Stop);
            },
            ChatEvent::Nop => {},
        }
        proof {
            assert(actions_view(actions@) =~= chat_step(old(self).room@, name_view(old(self).name), event_view(event)).2);
        }
        actions
    }
}

/// Only a `/join` with a room name moves a session, and it moves it to
/// that room; only a `/name` with a name renames the peer.
pub proof fn lemma_room_and_name_changes(room: Seq<char>, name: Option<Seq<char>>, e: ChatEventView)
    ensures
        chat_step(room, name, e).0 != room ==> (e matches ChatEventView::Text(t) && split_space(trim(t)).0
            == "/join"@ && split_space(trim(t)).1 == Some(chat_step(room, name, e).0)),
        chat_step(room, name, e).1 != name ==> (e matches ChatEventView::Text(t) && split_space(trim(t)).0
            == "/name"@ && split_space(trim(t)).1 == chat_step(room, name, e).1),
{
}

/// A text without a space is split into itself and nothing.
proof fn lemma_split_without_space(m: Seq<char>)
    requires
        split_space(m).1 is None,
    ensures
        split_space(m).0 == m,
    decreases m.len(),
{
    if m.len() > 0 && m[0] != ' ' {
        lemma_split_without_space(m.drop_first());
        assert(seq![m[0]] + m.drop_first() =~= m);
    }
}

/// How often the session's heartbeat ticks: every three seconds, each tick
/// deciding by `WsChatSession::heartbeat` whether to ping or disconnect.
pub const HEARTBEAT_INTERVAL_SECS: u64 = 3;

/// How long the peer may stay silent before the session is dropped:
/// ten seconds.
pub const CLIENT_TIMEOUT_SECS: u64 = 10;

/// What a heartbeat tick does.
#[derive(PartialEq, Eq, Structural, Clone, Copy, Debug)]
pub enum Heartbeat {
    /// The peer timed out: tell the chat server this session left, then
    /// stop.
    Disconnect(usize),
    /// Ping the peer.
    Ping,
}

/// Whether a silence of `secs` seconds and `nanos` nanoseconds is longer
/// than the client timeout.
pub open spec fn timed_out(secs: u64, nanos: u32) -> bool {
    secs > CLIENT_TIMEOUT_SECS || (secs == CLIENT_TIMEOUT_SECS && nanos > 0)
}

/// A peer times out exactly when its silence, counted in nanoseconds, is
/// longer than the client timeout; any silence of fewer whole seconds
/// than the timeout is not a time-out.
pub proof fn lemma_timed_out_is_longer_silence(secs: u64, nanos: u32)
    requires
        nanos < 1_000_000_000,
    ensures
        timed_out(secs, nanos) <==> secs * 1_000_000_000 + nanos > CLIENT_TIMEOUT_SECS * 1_000_000_000,
        secs < CLIENT_TIMEOUT_SECS ==> !timed_out(secs, nanos),
{
}

impl WsChatSession {
    /// Takes the chat server's answer to the session's registration: the
    /// id it was given, or `None` when the server failed, in which case
    /// the session stops. The result says whether to stop.
    pub fn connected(&mut self, registered: Option<usize>) -> (stop: bool)
        ensures
            stop == registered is None,
            final(self).id == (match registered {
                Some(id) => id,
                None => old(self).id,
            }),
            final(self).room@ == old(self).room@,
            name_view(final(self).name) == name_view(old(self).name),
    {
        match registered {
            Some(id) => {
                self.id = id;
                false
            },
            None => true,
        }
    }

    /// A heartbeat tick, `secs` seconds and `nanos` nanoseconds after the
    /// peer was last heard: past the timeout the session disconnects,
    /// otherwise it pings.
    pub fn heartbeat(&self, secs: u64, nanos: u32) -> (h: Heartbeat)
        ensures
            h == (if timed_out(secs, nanos) {
                Heartbeat::Disconnect(self.id)
            } else {
                Heartbeat::Ping
            }),
            nanos < 1_000_000_000 ==> (h == Heartbeat::Ping <==> secs * 1_000_000_000 + nanos
                <= CLIENT_TIMEOUT_SECS * 1_000_000_000),
            h matches Heartbeat::Disconnect(id) ==> id == self.id,
    {
        if secs > CLIENT_TIMEOUT_SECS || (secs == CLIENT_TIMEOUT_SECS && nanos > 0) {
            Heartbeat::Disconnect(self.id)
        } else {
            Heartbeat::Ping
        }
    }
}

/// The name a bang list greets when the request names none.
pub const DEFAULT_BANG_NAME: &'static str = "World";

/// The text of the bang list for the name in the request, if any.
pub fn bang_list(name: Option<&str>) -> (t: String)
    ensures
        t@ == "bang list "@ + (match name {
            Some(n) => n@,
            None => DEFAULT_BANG_NAME@,
        }) + "!"@,
{
    let mut t = "bang list ".to_string();
    match name {
        Some(n) => t.append(n),
        None => t.append(DEFAULT_BANG_NAME),
    }
    t.append("!");
    t
}

/// The text telling how many visitors came.
pub fn visitors_text(count: usize) -> (t: String)
    ensures
        t@ == "Visitors: "@ + crate::json::decimal_text(count as nat),
{
    let mut v: Vec<char> = Vec::new();
    crate::jwt::push_str(&mut v, "Visitors: ");
    crate::json::push_decimal(&mut v, count as u64);
    crate::text::string_from(v.as_slice())
}

/// A game room description.
pub struct MoonBang {
    pub name: String,
    pub width: i32,
    pub height: i32,
    pub private: bool,
}

} // verus!
