//! The state of the console's window: the connection status, the log of
//! messages, and the packet a command's inputs make.

use std::collections::VecDeque;
use vstd::prelude::*;
use vstd::string::StringExecFns;
use crate::decimal::{parse_u32, parse_unsigned, two_digit_string, two_digit_text};
use crate::network::NetEvent;
use crate::protocol::{
    i32_bits, lemma_subrange_of_concat, pack_actor, pack_bool, pack_float, pack_int, pack_response, pack_set_time, pack_vector3f,
    parse_time_str, time_of, u32_le, word_of, SET_TIME_PACKET,
};
use crate::text::{lowercase, text_equals, to_lowercase};
use vstd::utf8::encode_utf8;

verus! {

/// How the connection to the game stands.
#[derive(Debug, Clone, Copy, PartialEq, Eq, Structural)]
pub enum LinkStatus {
    Waiting,
    Connected,
    Disconnected,
}

/// The text shown for a connection status.
pub open spec fn status_text(s: LinkStatus) -> Seq<char> {
    match s {
        LinkStatus::Waiting => "等待连接..."@,
        LinkStatus::Connected => "已连接 ✓"@,
        LinkStatus::Disconnected => "已断开"@,
    }
}

impl LinkStatus {
    pub fn text(&self) -> (r: &'static str)
        ensures
            r@ == status_text(*self),
    {
        match self {
            LinkStatus::Waiting => "等待连接...",
            LinkStatus::Connected => "已连接 ✓",
            LinkStatus::Disconnected => "已断开",
        }
    }
}

/// The connection as the window shows it.
#[derive(Debug, Clone, Copy)]
pub struct LinkState {
    pub status: LinkStatus,
    pub connected: bool,
}

impl LinkState {
    /// Before the server has started: waiting, not connected.
    pub fn new() -> (r: Self)
        ensures
            r.status == LinkStatus::Waiting,
            !r.connected,
    {
        LinkState { status: LinkStatus::Waiting, connected: false }
    }
}

/// The state after `event` and the line it adds to the log.
pub open spec fn event_effect(state: LinkState, event: NetEvent) -> (LinkState, Seq<char>) {
    match event {
        NetEvent::ServerStarted(m) => (
            LinkState { status: LinkStatus::Waiting, connected: state.connected },
            m@,
        ),
        NetEvent::ClientConnected(m) => (LinkState { status: LinkStatus::Connected, connected: true }, m@),
        NetEvent::ClientDisconnected => (
            LinkState { status: LinkStatus::Disconnected, connected: false },
            "客户端已断开连接"@,
        ),
        NetEvent::LogMessage(m) => (state, m@),
        NetEvent::Error(m) => (state, "❌ "@ + m@),
    }
}

/// Only the events about the connection itself move the connection state:
/// a log message or an error leaves it as it was, the client's arrival and
/// departure set the connected flag, and the server's start leaves the flag
/// alone. The window shows the client as connected exactly when it came and
/// has not left since.
pub proof fn law_link_follows_connection_events(state: LinkState, event: NetEvent)
    ensures
        (event is LogMessage || event is Error) ==> event_effect(state, event).0 == state,
        event_effect(state, event).0.connected == (event is ClientConnected || (state.connected
            && !(event is ClientDisconnected))),
        event_effect(state, event).0.status != state.status ==> (event is ServerStarted
            || event is ClientConnected || event is ClientDisconnected),
        event is ClientConnected ==> event_effect(state, event).0.status == LinkStatus::Connected,
        event is ClientDisconnected ==> event_effect(state, event).0.status
            == LinkStatus::Disconnected,
        event is ServerStarted ==> event_effect(state, event).0.status == LinkStatus::Waiting,
{
}

/// Takes in one event of the connection: updates the state and gives the
/// message to log.
pub fn apply_event(state: &mut LinkState, event: NetEvent) -> (r: String)
    ensures
        (*final(state), r@) == event_effect(*old(state), event),
        event is LogMessage || event is Error ==> *final(state) == *old(state),
        event is ServerStarted ==> final(state).status == LinkStatus::Waiting
            && final(state).connected == old(state).connected,
        event is ClientConnected ==> final(state).status == LinkStatus::Connected
            && final(state).connected,
        event is ClientDisconnected ==> final(state).status == LinkStatus::Disconnected
            && !final(state).connected,
        event matches NetEvent::LogMessage(m) ==> r@ == m@,
        event matches NetEvent::ServerStarted(m) ==> r@ == m@,
        event matches NetEvent::ClientConnected(m) ==> r@ == m@,
        event matches NetEvent::Error(m) ==> r@ == "❌ "@ + m@,
        event is ClientDisconnected ==> r@ == "客户端已断开连接"@,
{
    match event {
        NetEvent::ServerStarted(m) => {
            state.status = LinkStatus::Waiting;
            m
        },
        NetEvent::ClientConnected(m) => {
            state.status = LinkStatus::Connected;
            state.connected = true;
            m
        },
        NetEvent::ClientDisconnected => {
            state.status = LinkStatus::Disconnected;
            state.connected = false;
            "客户端已断开连接".to_owned()
        },
        NetEvent::LogMessage(m) => m,
        NetEvent::Error(m) => {
            let mut t = "❌ ".to_owned();
            t.append(m.as_str());
            t
        },
    }
}

/// How many lines the log keeps.
pub const LOG_CAPACITY: usize = 200;

/// The last `LOG_CAPACITY` lines of `lines`.
pub open spec fn last_lines(lines: Seq<Seq<char>>) -> Seq<Seq<char>> {
    if lines.len() > LOG_CAPACITY {
        lines.subrange(lines.len() - LOG_CAPACITY, lines.len() as int)
    } else {
        lines
    }
}

/// The most recent log lines, oldest first.
pub struct LogBuffer {
    lines: VecDeque<String>,
}

impl LogBuffer {
    /// The lines, oldest first.
    pub closed spec fn view(&self) -> Seq<Seq<char>> {
        self.lines@.map_values(|l: String| l@)
    }

    /// An empty log.
    pub fn new() -> (r: Self)
        ensures
            r@ == Seq::<Seq<char>>::empty(),
    {
        let r = LogBuffer { lines: VecDeque::new() };
        assert(r@ =~= Seq::<Seq<char>>::empty());
        r
    }

    /// The number of lines held.
    pub fn len(&self) -> (r: usize)
        ensures
            r == self@.len(),
    {
        self.lines.len()
    }

    /// Line `i`, counting from the oldest.
    pub fn line(&self, i: usize) -> (r: &String)
        requires
            i < self@.len(),
        ensures
            r@ == self@[i as int],
    {
        &self.lines[i]
    }

    /// Adds a line, dropping the oldest lines beyond the capacity.
    pub fn push(&mut self, line: String)
        ensures
            final(self)@ == last_lines(old(self)@.push(line@)),
            final(self)@.len() <= LOG_CAPACITY,
    {
        let ghost all = old(self)@.push(line@);
        self.lines.push_back(line);
        assert(self@ =~= all);
        while self.lines.len() > LOG_CAPACITY
            invariant
                self@.len() <= all.len(),
                self@.len() == all.len() || self@.len() >= LOG_CAPACITY,
                self@ == all.subrange(all.len() - self@.len(), all.len() as int),
            decreases self.lines.len(),
        {
            let ghost before = self@;
            self.lines.pop_front();
            assert(self@ =~= before.subrange(1, before.len() as int));
        }
        proof {
            if all.len() <= LOG_CAPACITY {
                assert(self@ =~= all);
            }
        }
        assert(self@ =~= last_lines(all));
    }

    /// Removes every line.
    pub fn clear(&mut self)
        ensures
            final(self)@ == Seq::<Seq<char>>::empty(),
    {
        self.lines.clear();
        assert(self@ =~= Seq::<Seq<char>>::empty());
    }
}

/// The clock text "HH:MM:SS" at `secs` seconds after the Unix epoch, in
/// UTC+8.
pub open spec fn clock_of(secs: u64) -> Seq<char> {
    let hours = ((secs / 3600) % 24 + 8) % 24;
    let mins = (secs / 60) % 60;
    let s = secs % 60;
    two_digit_text(hours as nat) + ":"@ + two_digit_text(mins as nat) + ":"@ + two_digit_text(
        s as nat,
    )
}

/// The time of day at `secs` seconds after the Unix epoch, in UTC+8.
pub fn clock_text(secs: u64) -> (r: String)
    ensures
        r@ == clock_of(secs),
{
    let hours = ((secs / 3600) % 24 + 8) % 24;
    let mins = (secs / 60) % 60;
    let s = secs % 60;
    let mut t = two_digit_string(hours as u32);
    t.append(":");
    let m = two_digit_string(mins as u32);
    t.append(m.as_str());
    t.append(":");
    let x = two_digit_string(s as u32);
    t.append(x.as_str());
    t
}

/// A log line: the clock in brackets, a space, the message.
pub fn log_line(clock: &str, message: &str) -> (r: String)
    ensures
        r@ == "["@ + clock@ + "] "@ + message@,
{
    let mut t = "[".to_owned();
    t.append(clock);
    t.append("] ");
    t.append(message);
    t
}

/// What the window gathered for a command before sending it.
#[derive(Debug)]
pub enum CommandInput {
    /// A command without argument.
    Plain,
    /// An on/off flag.
    Flag(bool),
    /// The bit pattern of the typed value, or nothing when the text was not
    /// a number.
    FloatBits(Option<u32>),
    /// The typed text of an unsigned value.
    IntText(String),
    /// The bit patterns of x, y and z.
    VectorBits(u32, u32, u32),
    /// The typed time.
    TimeText(String),
    /// The name of the actor to spawn and the typed amount.
    Actor(String, String),
}

/// The packet a command with id `packet_id` sends for `input`, or nothing
/// when the input is not usable: a value that is not a number. A missing or
/// unreadable actor amount counts as 1.
pub open spec fn command_bytes(packet_id: i32, input: CommandInput) -> Option<Seq<u8>> {
    let id = u32_le(i32_bits(packet_id));
    match input {
        CommandInput::Plain => Some(id),
        CommandInput::Flag(b) => Some(
            id + u32_le(
                if b {
                    1
                } else {
                    0
                },
            ),
        ),
        CommandInput::FloatBits(w) => match w {
            Some(bits) => Some(id + u32_le(bits)),
            None => None,
        },
        CommandInput::IntText(t) => match parse_unsigned(t@, u32::MAX as nat) {
            Some(v) => Some(id + u32_le(v as u32)),
            None => None,
        },
        CommandInput::VectorBits(x, y, z) => Some(
            id + u32_le(0) + u32_le(x) + u32_le(y) + u32_le(z),
        ),
        CommandInput::TimeText(t) => {
            let hm = time_of(lowercase(t@), t@);
            Some(u32_le(SET_TIME_PACKET) + u32_le(0) + u32_le(hm.0) + u32_le(hm.1))
        },
        CommandInput::Actor(name, amount) => {
            let n: u32 = match parse_unsigned(amount@, u32::MAX as nat) {
                Some(v) => v as u32,
                None => 1,
            };
            Some(id + u32_le(n) + encode_utf8(name@) + u32_le(0))
        },
    }
}

/// A vector command's packet carries the id, a zero word, then x, y and z in
/// the order they were typed, each as its own little-endian word.
pub proof fn law_vector_command_layout(packet_id: i32, x: u32, y: u32, z: u32)
    ensures
        command_bytes(packet_id, CommandInput::VectorBits(x, y, z)) matches Some(b) && b.len() == 20
            && b.subrange(0, 4) == u32_le(i32_bits(packet_id)) && b.subrange(4, 8) == u32_le(0)
            && b.subrange(8, 12) == u32_le(x) && b.subrange(12, 16) == u32_le(y) && b.subrange(
            16,
            20,
        ) == u32_le(z),
{
    lemma_subrange_of_concat();
}

/// The packet to send for a command with id `packet_id` and input `input`.
pub fn command_packet(packet_id: i32, input: &CommandInput) -> (r: Option<Vec<u8>>)
    ensures
        match command_bytes(packet_id, *input) {
            Some(b) => r matches Some(v) && v@ == b,
            None => r is None,
        },
        *input matches CommandInput::Plain ==> r matches Some(v) && v@ == u32_le(
            i32_bits(packet_id),
        ),
        *input matches CommandInput::Flag(on) ==> r matches Some(v) && v@.len() == 8
            && v@.subrange(0, 4) == u32_le(i32_bits(packet_id)) && (on ==> v@.subrange(4, 8)
            == u32_le(1)) && (!on ==> v@.subrange(4, 8) == u32_le(0)),
        *input matches CommandInput::FloatBits(w) ==> (w is None <==> r is None) && (w matches Some(
            bits,
        ) ==> r matches Some(v) && v@.len() == 8 && v@.subrange(0, 4) == u32_le(i32_bits(packet_id))
            && v@.subrange(4, 8) == u32_le(bits)),
        *input matches CommandInput::VectorBits(x, y, z) ==> r matches Some(v) && v@.len() == 20
            && v@.subrange(0, 4) == u32_le(i32_bits(packet_id)) && v@.subrange(4, 8) == u32_le(0)
            && v@.subrange(8, 12) == u32_le(x) && v@.subrange(12, 16) == u32_le(y) && v@.subrange(
            16,
            20,
        ) == u32_le(z),
        *input matches CommandInput::IntText(t) ==> (parse_unsigned(t@, u32::MAX as nat) is None
            <==> r is None) && (parse_unsigned(t@, u32::MAX as nat) matches Some(n) ==> r matches Some(
            v,
        ) && v@.len() == 8 && v@.subrange(0, 4) == u32_le(i32_bits(packet_id)) && v@.subrange(4, 8)
            == u32_le(n as u32)),
        *input matches CommandInput::TimeText(t) ==> r matches Some(v) && v@.len() == 16
            && v@.subrange(0, 4) == u32_le(SET_TIME_PACKET) && v@.subrange(4, 8) == u32_le(0)
            && v@.subrange(8, 12) == u32_le(time_of(lowercase(t@), t@).0) && v@.subrange(12, 16)
            == u32_le(time_of(lowercase(t@), t@).1),
        *input matches CommandInput::Actor(name, amount) ==> r matches Some(v) && v@.len()
            == encode_utf8(name@).len() + 12 && v@.subrange(0, 4) == u32_le(i32_bits(packet_id))
            && v@.subrange(4, 8) == u32_le(
            match parse_unsigned(amount@, u32::MAX as nat) {
                Some(n) => n as u32,
                None => 1u32,
            },
        ) && v@.subrange(8, 8 + encode_utf8(name@).len() as int) == encode_utf8(name@)
            && v@.subrange(8 + encode_utf8(name@).len() as int, v@.len() as int) == u32_le(0),
{
    let id = word_of(packet_id);
    match input {
        CommandInput::Plain => Some(pack_response(id)),
        CommandInput::Flag(b) => {
            let v: u32 = if *b {
                1
            } else {
                0
            };
            Some(pack_bool(id, v))
        },
        CommandInput::FloatBits(w) => match w {
            Some(bits) => Some(pack_float(id, *bits)),
            None => None,
        },
        CommandInput::IntText(t) => match parse_u32(t.as_str()) {
            Some(v) => Some(pack_int(id, v)),
            None => None,
        },
        CommandInput::VectorBits(x, y, z) => Some(pack_vector3f(packet_id, *x, *y, *z)),
        CommandInput::TimeText(t) => {
            let (h, m) = parse_time_str(t.as_str());
            Some(pack_set_time(h, m))
        },
        CommandInput::Actor(name, amount) => {
            let n: u32 = match parse_u32(amount.as_str()) {
                Some(v) => v,
                None => 1,
            };
            Some(pack_actor(id, n, name.as_str()))
        },
    }
}

/// Whether an actor name asks for a random actor: "random" or "r", in any
/// case.
pub fn wants_random_actor(name: &str) -> (r: bool)
    ensures
        r == (lowercase(name@) == "random"@ || lowercase(name@) == "r"@),
{
    let lowered = to_lowercase(name);
    text_equals(lowered.as_str(), "random") || text_equals(lowered.as_str(), "r")
}

} // verus!
