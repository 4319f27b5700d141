//! The Behringer Wing connection: its settings, the discovery and keep-alive
//! state machine, the handling of console replies, and the OSC packets that
//! carry cues and timecode to the console.
//!
//! The console answers `WING?` on its native UDP port (2222) with an ID
//! string and must be asked again every few seconds; parameters are set
//! with OSC messages on port 2223. Sockets and clocks stay with the caller:
//! every decision here takes the time as nanoseconds on a monotonic clock
//! and hands back what is to be sent.

use vstd::prelude::*;
use crate::text::{
    chars_of, contains, contains_chars, from_utf8, ipv4_text, push_decimal, push_ipv4,
    split_chars, split_on, starts_with, starts_with_chars, string_from_chars, trim, trim_ws,
};
use crate::timecode::{TimecodeFrame, format_timecode, spec_format_timecode};

verus! {

/// The console's native discovery port.
pub const NATIVE_PORT: u16 = 2222;

/// The console's OSC port.
pub const OSC_PORT: u16 = 2223;

/// Default time between two discovery requests: 3 s.
pub const DEFAULT_DISCOVERY_INTERVAL_NANOS: u64 = 3_000_000_000;

/// Silence after which a connected console counts as lost: 15 s.
pub const REPLY_TIMEOUT_NANOS: u64 = 15_000_000_000;

/// Shortest time between two fader messages: 400 ms.
pub const FADER_MIN_GAP_NANOS: u64 = 400_000_000;

/// Where and how often to talk to the console.
#[derive(Debug, Clone)]
pub struct WingConfig {
    pub console_ip: String,
    pub native_port: u16,
    pub osc_port: u16,
    pub discovery_interval_nanos: u64,
}

impl Default for WingConfig {
    fn default() -> (r: Self)
        ensures
            r.console_ip@ == "192.168.1.20"@,
            r.native_port == NATIVE_PORT,
            r.osc_port == OSC_PORT,
            r.discovery_interval_nanos == DEFAULT_DISCOVERY_INTERVAL_NANOS,
    {
        WingConfig {
            console_ip: String::from_str("192.168.1.20"),
            native_port: NATIVE_PORT,
            osc_port: OSC_PORT,
            discovery_interval_nanos: DEFAULT_DISCOVERY_INTERVAL_NANOS,
        }
    }
}

/// Where the conversation with the console stands.
#[derive(Debug, Clone, Copy, PartialEq, Eq, Structural)]
pub enum ConnectionState {
    Discovering,
    Connected,
    Stale,
}

/// Time from `since` to `now`; zero when `now` is earlier.
pub open spec fn elapsed(now: u64, since: u64) -> int {
    if now >= since {
        now - since
    } else {
        0
    }
}

/// Time from `since` to `now`; zero when `now` is earlier.
fn elapsed_nanos(now: u64, since: u64) -> (r: u64)
    ensures
        r == elapsed(now, since),
{
    if now >= since {
        now - since
    } else {
        0
    }
}

/// What the caller is to send after a tick.
#[derive(Debug, Clone, Copy, PartialEq, Eq, Structural)]
pub enum TickAction {
    /// Nothing to send.
    Idle,
    /// Send `WING?` to the native port; a failed send fails the tick, and a
    /// successful one is reported with `discovery_sent`.
    Discover,
    /// Send `WING?` to the native port and ignore the outcome; when
    /// `went_stale`, the console has been silent too long.
    KeepAlive { went_stale: bool },
    /// The console has been silent too long; nothing to send.
    WentStale,
}

/// What a datagram from the native port meant.
#[derive(Debug, Clone, PartialEq, Eq)]
pub enum PacketOutcome {
    /// It did not come from the console.
    Ignored,
    /// A reply from the console that changed nothing but the reply time.
    Reply,
    /// The console identified itself and the connection is now up.
    Connected { name: String, model: String, firmware: String },
}

/// The console side of the bridge, without its sockets.
pub struct WingConn {
    pub config: WingConfig,
    pub state: ConnectionState,
    pub last_discovery: Option<u64>,
    pub last_reply: Option<u64>,
    pub last_fader_send: Option<u64>,
}

/// Piece `i` of `parts`, or `default` when there are not that many.
pub open spec fn piece_or(parts: Seq<Seq<char>>, i: int, default: Seq<char>) -> Seq<char> {
    if i < parts.len() {
        parts[i]
    } else {
        default
    }
}

/// Whether text (already trimmed) is the console's ID reply: it starts with
/// `WING` and holds a comma.
pub open spec fn is_wing_ident(t: Seq<char>) -> bool {
    starts_with(t, "WING"@) && contains(t, ","@)
}

/// Whether a datagram from `src` comes from the configured console address.
pub open spec fn from_console(src: Option<[u8; 4]>, console_ip: Seq<char>) -> bool {
    match src {
        Some(a) => ipv4_text(a) == console_ip,
        None => false,
    }
}

impl WingConn {
    /// A connection that has not yet found the console.
    pub fn new(config: WingConfig) -> (w: Self)
        ensures
            w.config == config,
            w.state == ConnectionState::Discovering,
            w.last_discovery is None,
            w.last_reply is None,
            w.last_fader_send is None,
    {
        WingConn {
            config,
            state: ConnectionState::Discovering,
            last_discovery: None,
            last_reply: None,
            last_fader_send: None,
        }
    }

    /// Whether the console has answered and not gone silent since.
    pub fn is_connected(&self) -> (r: bool)
        ensures
            r == (self.state == ConnectionState::Connected),
    {
        self.state == ConnectionState::Connected
    }

    /// A discovery request is due: none was sent yet, or the last one is
    /// older than the discovery interval.
    pub open spec fn discovery_due(&self, now: u64) -> bool {
        match self.last_discovery {
            None => true,
            Some(t) => elapsed(now, t) > self.config.discovery_interval_nanos,
        }
    }

    /// The console has been silent for more than 15 s since its last reply.
    pub open spec fn reply_overdue(&self, now: u64) -> bool {
        match self.last_reply {
            None => false,
            Some(t) => elapsed(now, t) > REPLY_TIMEOUT_NANOS,
        }
    }

    /// The state after a tick at `now`.
    pub open spec fn after_tick(self, now: u64) -> WingConn {
        match self.state {
            ConnectionState::Discovering => self,
            ConnectionState::Connected => {
                let s1 = if self.discovery_due(now) {
                    WingConn { last_discovery: Some(now), ..self }
                } else {
                    self
                };
                if self.reply_overdue(now) {
                    WingConn { state: ConnectionState::Stale, ..s1 }
                } else {
                    s1
                }
            },
            ConnectionState::Stale => WingConn { state: ConnectionState::Discovering, ..self },
        }
    }

    /// What a tick at `now` asks the caller to send.
    pub open spec fn tick_action(self, now: u64) -> TickAction {
        match self.state {
            ConnectionState::Discovering => if self.discovery_due(now) {
                TickAction::Discover
            } else {
                TickAction::Idle
            },
            ConnectionState::Connected => if self.discovery_due(now) {
                TickAction::KeepAlive { went_stale: self.reply_overdue(now) }
            } else if self.reply_overdue(now) {
                TickAction::WentStale
            } else {
                TickAction::Idle
            },
            ConnectionState::Stale => TickAction::Idle,
        }
    }

    /// One step of the connection at `now` (after the pending replies have
    /// been handled): while discovering, asks for `WING?` when one is due;
    /// while connected, asks for a keep-alive `WING?` when one is due (and
    /// counts it as sent) and turns stale after 15 s of silence; a stale
    /// connection goes back to discovering.
    pub fn tick(&mut self, now: u64) -> (a: TickAction)
        ensures
            *final(self) == old(self).after_tick(now),
            a == old(self).tick_action(now),
    {
        let due = match self.last_discovery {
            None => true,
            Some(t) => elapsed_nanos(now, t) > self.config.discovery_interval_nanos,
        };
        match self.state {
            ConnectionState::Discovering => {
                if due {
                    TickAction::Discover
                } else {
                    TickAction::Idle
                }
            },
            ConnectionState::Connected => {
                if due {
                    self.last_discovery = Some(now);
                }
                let overdue = match self.last_reply {
                    None => false,
                    Some(t) => elapsed_nanos(now, t) > REPLY_TIMEOUT_NANOS,
                };
                if overdue {
                    self.state = ConnectionState::Stale;
                }
                if due {
                    TickAction::KeepAlive { went_stale: overdue }
                } else if overdue {
                    TickAction::WentStale
                } else {
                    TickAction::Idle
                }
            },
            ConnectionState::Stale => {
                self.state = ConnectionState::Discovering;
                TickAction::Idle
            },
        }
    }

    /// Records that a discovery request went out at `now`.
    pub fn discovery_sent(&mut self, now: u64)
        ensures
            *final(self) == (WingConn { last_discovery: Some(now), ..*old(self) }),
    {
        self.last_discovery = Some(now);
    }

    /// A fader message may go out at `now`: none went out yet, or the last
    /// one is at least 400 ms old.
    pub open spec fn fader_allowed(&self, now: u64) -> bool {
        match self.last_fader_send {
            None => true,
            Some(t) => elapsed(now, t) >= FADER_MIN_GAP_NANOS,
        }
    }

    /// Decides whether a fader message for channel `ch` goes out at `now`;
    /// gives its OSC address when it does, and records the time. The level
    /// is added by the caller.
    pub fn send_fader(&mut self, ch: u8, now: u64) -> (path: Option<String>)
        ensures
            old(self).fader_allowed(now) ==> (path matches Some(p) && p@ == fader_path(ch)),
            old(self).fader_allowed(now) ==> *final(self) == (WingConn {
                last_fader_send: Some(now),
                ..*old(self)
            }),
            !old(self).fader_allowed(now) ==> path is None && *final(self) == *old(self),
    {
        if let Some(t) = self.last_fader_send {
            if elapsed_nanos(now, t) < FADER_MIN_GAP_NANOS {
                return None;
            }
        }
        self.last_fader_send = Some(now);
        Some(channel_path(ch, "/fdr"))
    }

    /// Handles a datagram from the native port that came from `src`
    /// (`None` for a non-IPv4 sender) at `now`. Datagrams from other
    /// addresses are ignored; any from the console counts as a reply, and
    /// an ID reply (text starting with `WING` and holding a comma) marks the
    /// connection as up and gives the console's name, model and firmware
    /// (fields 2, 3 and 5, `?` where missing) the first time.
    pub fn handle_packet(&mut self, data: &[u8], src: Option<[u8; 4]>, now: u64) -> (r: PacketOutcome)
        ensures
            !from_console(src, old(self).config.console_ip@) ==> r == PacketOutcome::Ignored
                && *final(self) == *old(self),
            from_console(src, old(self).config.console_ip@) ==> {
                let replied = WingConn { last_reply: Some(now), ..*old(self) };
                let ident = vstd::utf8::valid_utf8(data@) && is_wing_ident(
                    trim_ws(vstd::utf8::decode_utf8(data@)),
                );
                if ident && old(self).state != ConnectionState::Connected {
                    let parts = split_on(trim_ws(vstd::utf8::decode_utf8(data@)), ',');
                    &&& *final(self) == WingConn { state: ConnectionState::Connected, ..replied }
                    &&& r matches PacketOutcome::Connected { name, model, firmware }
                    &&& name@ == piece_or(parts, 2, "?"@)
                    &&& model@ == piece_or(parts, 3, "?"@)
                    &&& firmware@ == piece_or(parts, 5, "?"@)
                } else {
                    &&& *final(self) == replied
                    &&& r == PacketOutcome::Reply
                }
            },
    {
        let from = match src {
            Some(a) => {
                let mut text = String::new();
                push_ipv4(&mut text, a);
                text == self.config.console_ip
            },
            None => false,
        };
        if !from {
            return PacketOutcome::Ignored;
        }
        self.last_reply = Some(now);
        if let Some(decoded) = from_utf8(data) {
            let t = trim(decoded);
            let chars = chars_of(t);
            if starts_with_chars(&chars, &chars_of("WING")) && contains_chars(&chars, &chars_of(",")) {
                if self.state != ConnectionState::Connected {
                    let parts = split_chars(&chars, ',');
                    let name = piece_or_default(&parts, 2, "?");
                    let model = piece_or_default(&parts, 3, "?");
                    let firmware = piece_or_default(&parts, 5, "?");
                    self.state = ConnectionState::Connected;
                    return PacketOutcome::Connected { name, model, firmware };
                }
            }
        }
        PacketOutcome::Reply
    }
}

/// Piece `i` of `parts` as a `String`, or `default` when there are not that
/// many pieces.
pub fn piece_or_default(parts: &Vec<Vec<char>>, i: usize, default: &str) -> (s: String)
    ensures
        s@ == piece_or(parts.deep_view(), i as int, default@),
{
    assert(parts.deep_view().len() == parts@.len());
    if i < parts.len() {
        assert(parts.deep_view()[i as int] == parts@[i as int]@);
        string_from_chars(&parts[i])
    } else {
        String::from_str(default)
    }
}

/// The OSC address `/ch/<ch><tail>`.
pub open spec fn channel_path_text(ch: u8, tail: Seq<char>) -> Seq<char> {
    "/ch/"@ + crate::text::decimal(ch as nat) + tail
}

/// The OSC address of the fader of channel `ch`: `/ch/<ch>/fdr`.
pub open spec fn fader_path(ch: u8) -> Seq<char> {
    channel_path_text(ch, "/fdr"@)
}

/// The OSC address of the mute switch of channel `ch`: `/ch/<ch>/mute`.
pub open spec fn mute_path(ch: u8) -> Seq<char> {
    channel_path_text(ch, "/mute"@)
}

/// The OSC address `/ch/<ch><tail>`.
fn channel_path(ch: u8, tail: &str) -> (s: String)
    ensures
        s@ == channel_path_text(ch, tail@),
{
    let mut s = String::from_str("/ch/");
    push_decimal(&mut s, ch);
    s.append(tail);
    s
}

} // verus!

verus! {

/// The one argument of an OSC message sent to the console.
#[derive(Debug, Clone, PartialEq, Eq)]
pub enum OscArg {
    /// A 32-bit integer (type tag `i`).
    Int(i32),
    /// A string (type tag `s`).
    Str(String),
}

/// `b` followed by one to four zero bytes, so that the length is a multiple
/// of four: an OSC string.
pub open spec fn osc_padded(b: Seq<u8>) -> Seq<u8> {
    b + Seq::new((4 - b.len() % 4) as nat, |i: int| 0u8)
}

/// The four big-endian bytes of `v`.
pub open spec fn be_bytes(v: i32) -> Seq<u8> {
    let u: int = if v >= 0 {
        v as int
    } else {
        v + 0x1_0000_0000
    };
    seq![
        ((u / 0x100_0000) % 0x100) as u8,
        ((u / 0x1_0000) % 0x100) as u8,
        ((u / 0x100) % 0x100) as u8,
        (u % 0x100) as u8,
    ]
}

/// The OSC 1.0 encoding of a message to `addr` whose one argument is the
/// 32-bit integer `v`: the padded address, the padded type tags `,i`, then
/// the four big-endian bytes of `v`.
pub open spec fn osc_int_message(addr: Seq<char>, v: i32) -> Seq<u8> {
    osc_padded(vstd::utf8::encode_utf8(addr)) + seq![0x2Cu8, 0x69u8, 0u8, 0u8] + be_bytes(v)
}

/// The OSC 1.0 encoding of a message to `addr` whose one argument is the
/// string `text`: the padded address, the padded type tags `,s`, then the
/// padded UTF-8 bytes of `text`.
pub open spec fn osc_string_message(addr: Seq<char>, text: Seq<char>) -> Seq<u8> {
    osc_padded(vstd::utf8::encode_utf8(addr)) + seq![0x2Cu8, 0x73u8, 0u8, 0u8] + osc_padded(
        vstd::utf8::encode_utf8(text),
    )
}

/// The OSC 1.0 encoding of a message to `addr` with the one argument `a`.
pub open spec fn osc_message(addr: Seq<char>, a: OscArg) -> Seq<u8> {
    match a {
        OscArg::Int(v) => osc_int_message(addr, v),
        OscArg::Str(s) => osc_string_message(addr, s@),
    }
}

/// `rosc::encoder::encode` of a message to `addr` with the one argument
/// `arg`: the OSC 1.0 bytes of that message. (The encoder writes into a
/// `Vec<u8>`, which cannot fail, so it always returns `Ok`.)
#[verifier::external_body]
fn encode_osc(addr: &str, arg: OscArg) -> (bytes: Vec<u8>)
    ensures
        bytes@ == osc_message(addr@, arg),
{
    let value = match arg {
        OscArg::Int(v) => rosc::OscType::Int(v),
        OscArg::Str(s) => rosc::OscType::String(s),
    };
    let message = rosc::OscMessage { addr: addr.to_string(), args: vec![value] };
    match rosc::encoder::encode(&rosc::OscPacket::Message(message)) {
        Ok(bytes) => bytes,
        Err(_) => Vec::new(),
    }
}

/// The OSC packet that mutes (`1`) or unmutes (`0`) channel `ch`.
pub fn mute_packet(ch: u8, muted: bool) -> (bytes: Vec<u8>)
    ensures
        bytes@ == osc_int_message(mute_path(ch), if muted { 1 } else { 0 }),
{
    let path = channel_path(ch, "/mute");
    encode_osc(path.as_str(), OscArg::Int(if muted { 1 } else { 0 }))
}

/// The OSC address that shows the timecode: the name of channel 1.
pub open spec fn timecode_path() -> Seq<char> {
    "/ch/1/$name"@
}

/// The OSC packet that writes the timecode, as `HH:MM:SS:FF`, into the name
/// of channel 1.
pub fn timecode_packet(tc: TimecodeFrame) -> (bytes: Vec<u8>)
    ensures
        bytes@ == osc_string_message(
            timecode_path(),
            spec_format_timecode(tc.hours, tc.mins, tc.secs, tc.frames),
        ),
{
    let text = format_timecode(tc.hours, tc.mins, tc.secs, tc.frames);
    encode_osc("/ch/1/$name", OscArg::Str(text))
}

/// A stale connection goes back to discovering at the next tick, and a
/// discovering connection keeps discovering until the console answers.
pub proof fn law_stale_rediscovers(w: WingConn, now: u64)
    ensures
        w.state == ConnectionState::Stale ==> w.after_tick(now).state == ConnectionState::Discovering
            && w.tick_action(now) == TickAction::Idle,
        w.state == ConnectionState::Discovering ==> w.after_tick(now) == w,
{
}

/// A connected console that has been silent for more than 15 s is stale
/// after the next tick; while it answers, it stays connected.
pub proof fn law_silence_makes_stale(w: WingConn, now: u64)
    requires
        w.state == ConnectionState::Connected,
    ensures
        w.reply_overdue(now) ==> w.after_tick(now).state == ConnectionState::Stale,
        !w.reply_overdue(now) ==> w.after_tick(now).state == ConnectionState::Connected,
{
}

/// While discovering, a tick asks for `WING?` exactly when the last request
/// is older than the discovery interval (or there was none); while
/// connected, a tick sends the keep-alive on the same schedule.
pub proof fn law_discovery_schedule(w: WingConn, now: u64)
    ensures
        w.state == ConnectionState::Discovering ==> (w.tick_action(now) == TickAction::Discover
            <==> w.discovery_due(now)),
        w.state == ConnectionState::Connected ==> (w.tick_action(now) is KeepAlive
            <==> w.discovery_due(now)),
{
}

/// After a fader message went out at `sent`, no other goes out until
/// 400 ms have passed.
pub proof fn law_fader_rate_limited(w: WingConn, sent: u64, later: u64)
    requires
        sent <= later,
        later - sent < FADER_MIN_GAP_NANOS,
    ensures
        !(WingConn { last_fader_send: Some(sent), ..w }).fader_allowed(later),
{
}

/// Every OSC packet for the console is a whole number of 4-byte words.
pub proof fn law_osc_packets_word_aligned(addr: Seq<char>, v: i32, text: Seq<char>)
    ensures
        osc_int_message(addr, v).len() % 4 == 0,
        osc_string_message(addr, text).len() % 4 == 0,
{
    let a = vstd::utf8::encode_utf8(addr);
    let b = vstd::utf8::encode_utf8(text);
    assert(osc_padded(a).len() == a.len() + (4 - a.len() % 4));
    assert(osc_padded(b).len() == b.len() + (4 - b.len() % 4));
    assert((a.len() + (4 - a.len() % 4)) % 4 == 0);
    assert((b.len() + (4 - b.len() % 4)) % 4 == 0);
}

/// A connected console turns stale at a tick exactly when more than 15 s
/// (15 000 000 000 ns) have passed since its last reply.
pub proof fn law_stale_after_fifteen_seconds(w: WingConn, replied: u64, now: u64)
    requires
        w.state == ConnectionState::Connected,
        w.last_reply == Some(replied),
        replied <= now,
    ensures
        (w.after_tick(now).state == ConnectionState::Stale) <==> now - replied > 15_000_000_000,
{
}

/// Fader messages are at least 400 ms (400 000 000 ns) apart: one is
/// refused before that time has passed since the last, and allowed once it
/// has.
pub proof fn law_fader_gap_is_400_ms(w: WingConn, sent: u64, later: u64)
    requires
        sent <= later,
    ensures
        (WingConn { last_fader_send: Some(sent), ..w }).fader_allowed(later) <==> later - sent
            >= 400_000_000,
        (WingConn { last_fader_send: None, ..w }).fader_allowed(later),
{
}

/// While discovering, `WING?` is asked for when none was sent yet or when
/// more than the configured interval has passed since the last one.
pub proof fn law_discovery_interval(w: WingConn, sent: u64, now: u64)
    requires
        w.state == ConnectionState::Discovering,
        sent <= now,
    ensures
        (WingConn { last_discovery: None, ..w }).tick_action(now) == TickAction::Discover,
        ((WingConn { last_discovery: Some(sent), ..w }).tick_action(now) == TickAction::Discover)
            <==> now - sent > w.config.discovery_interval_nanos,
{
}

} // verus!
