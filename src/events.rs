//! Session events: what is shown for each on the display and how each is
//! written to the transcript as one JSON object.

use crate::json::{json_member, json_object, json_string, JsonStrMap};
use crate::vis::{chomp, chomped, chunks_view, display_vis, vis_chunks, VisChunk};
use time::format_description::well_known::Rfc3339;
use time::OffsetDateTime;
use vstd::prelude::*;

verus! {

#[verifier::external_type_specification]
#[verifier::external_body]
pub struct ExOffsetDateTime(time::OffsetDateTime);

/// Relies on `OffsetDateTime::now_local`: the current time in the local
/// offset, when that offset can be determined.
#[verifier::external_body]
fn local_now() -> (r: Option<OffsetDateTime>) {
    OffsetDateTime::now_local().ok()
}

/// Relies on `OffsetDateTime::now_utc`: the current time in UTC.
#[verifier::external_body]
fn utc_now() -> (r: OffsetDateTime) {
    OffsetDateTime::now_utc()
}

/// Relies on `OffsetDateTime::hour`: always in `0..24`.
#[verifier::external_body]
fn hour_of(t: &OffsetDateTime) -> (r: u8)
    ensures
        r < 24,
{
    t.hour()
}

/// Relies on `OffsetDateTime::minute`: always in `0..60`.
#[verifier::external_body]
fn minute_of(t: &OffsetDateTime) -> (r: u8)
    ensures
        r < 60,
{
    t.minute()
}

/// Relies on `OffsetDateTime::second`: always in `0..60`.
#[verifier::external_body]
fn second_of(t: &OffsetDateTime) -> (r: u8)
    ensures
        r < 60,
{
    t.second()
}

/// Relies on `OffsetDateTime::format` with the RFC 3339 description: the
/// date-time as RFC 3339 text, or `None` where that format cannot express it
/// (a year past 9999, an offset with seconds).
#[verifier::external_body]
fn rfc3339_text(t: &OffsetDateTime) -> (r: Option<String>) {
    t.format(&Rfc3339).ok()
}

/// The current time: local where the local offset is known, else UTC.
pub fn now() -> (r: OffsetDateTime) {
    match local_now() {
        Some(t) => t,
        None => utc_now(),
    }
}

/// The decimal digit for `d < 10`.
pub open spec fn decimal_digit(d: int) -> char {
    (('0' as u32) + d) as char
}

/// `n` in decimal.
pub open spec fn decimal(n: nat) -> Seq<char>
    decreases n,
{
    if n < 10 {
        seq![decimal_digit(n as int)]
    } else {
        decimal(n / 10).push(decimal_digit((n % 10) as int))
    }
}

/// A clock reading `HH:MM:SS`.
pub open spec fn hms_text(h: int, m: int, s: int) -> Seq<char> {
    seq![
        decimal_digit(h / 10),
        decimal_digit(h % 10),
        ':',
        decimal_digit(m / 10),
        decimal_digit(m % 10),
        ':',
        decimal_digit(s / 10),
        decimal_digit(s % 10),
    ]
}

/// A clock reading of some time of day.
pub open spec fn is_hms_text(t: Seq<char>) -> bool {
    exists|h: int, m: int, s: int| 0 <= h < 24 && 0 <= m < 60 && 0 <= s < 60 && t == hms_text(h, m, s)
}

fn decimal_char(d: u8) -> (r: char)
    requires
        d < 10,
    ensures
        r == decimal_digit(d as int),
{
    (48u8 + d) as char
}

/// Appends `n` in decimal.
fn push_decimal(out: &mut String, n: u16)
    ensures
        final(out)@ == old(out)@ + decimal(n as nat),
    decreases n,
{
    if n < 10 {
        out.push(decimal_char(n as u8));
    } else {
        push_decimal(out, n / 10);
        out.push(decimal_char((n % 10) as u8));
        assert(final(out)@ =~= old(out)@ + decimal(n as nat));
    }
}

/// `HH:MM:SS` for a time of day.
pub fn hms(h: u8, m: u8, s: u8) -> (r: String)
    requires
        h < 24,
        m < 60,
        s < 60,
    ensures
        r@ == hms_text(h as int, m as int, s as int),
{
    let mut out = String::new();
    out.push(decimal_char(h / 10));
    out.push(decimal_char(h % 10));
    out.push(':');
    out.push(decimal_char(m / 10));
    out.push(decimal_char(m % 10));
    out.push(':');
    out.push(decimal_char(s / 10));
    out.push(decimal_char(s % 10));
    assert(out@ =~= hms_text(h as int, m as int, s as int));
    out
}

/// The current time of day as `HH:MM:SS`.
pub fn now_hms() -> (r: String)
    ensures
        is_hms_text(r@),
{
    let t = now();
    let (h, m, s) = (hour_of(&t), minute_of(&t), second_of(&t));
    let r = hms(h, m, s);
    assert(r@ == hms_text(h as int, m as int, s as int));
    r
}

/// When an event happened, held as what the session shows of it: the time
/// of day in the event's offset, and the date-time as RFC 3339 text (`None`
/// where that format cannot express it).
pub struct Timestamp {
    hour: u8,
    minute: u8,
    second: u8,
    rfc3339: Option<String>,
}

impl Timestamp {
    #[verifier::type_invariant]
    spec fn inv(self) -> bool {
        self.hour < 24 && self.minute < 60 && self.second < 60
    }

    pub closed spec fn spec_hour(self) -> int {
        self.hour as int
    }

    pub closed spec fn spec_minute(self) -> int {
        self.minute as int
    }

    pub closed spec fn spec_second(self) -> int {
        self.second as int
    }

    /// The RFC 3339 text, if any.
    pub closed spec fn spec_rfc3339(self) -> Option<Seq<char>> {
        text_opt(self.rfc3339)
    }

    /// The time of day as `HH:MM:SS`.
    pub open spec fn spec_hms(self) -> Seq<char> {
        hms_text(self.spec_hour(), self.spec_minute(), self.spec_second())
    }

    pub fn new(hour: u8, minute: u8, second: u8, rfc3339: Option<String>) -> (r: Timestamp)
        requires
            hour < 24,
            minute < 60,
            second < 60,
        ensures
            r.spec_hour() == hour,
            r.spec_minute() == minute,
            r.spec_second() == second,
            r.spec_rfc3339() == text_opt(rfc3339),
    {
        Timestamp { hour, minute, second, rfc3339 }
    }

    /// The current time: its time of day and its RFC 3339 text.
    pub fn now() -> (r: Timestamp) {
        let t = now();
        Timestamp { hour: hour_of(&t), minute: minute_of(&t), second: second_of(&t), rfc3339: rfc3339_text(&t) }
    }

    /// The time of day as `HH:MM:SS`.
    pub fn hms(&self) -> (r: String)
        ensures
            r@ == self.spec_hms(),
    {
        proof {
            use_type_invariant(self);
        }
        hms(self.hour, self.minute, self.second)
    }

    /// The RFC 3339 text, if the date-time has one.
    pub fn rfc3339(&self) -> (r: &Option<String>)
        ensures
            text_opt(*r) == self.spec_rfc3339(),
    {
        &self.rfc3339
    }
}

/// One notable occurrence of a session, with the time it happened.
pub enum Event {
    ConnectStart { timestamp: Timestamp, host: String, port: u16 },
    /// `peer` is the peer's socket address as text, `peer_ip` its IP
    /// address.
    ConnectFinish { timestamp: Timestamp, peer: String, peer_ip: String },
    TlsStart { timestamp: Timestamp },
    TlsFinish { timestamp: Timestamp },
    Recv { timestamp: Timestamp, data: String },
    Send { timestamp: Timestamp, data: String },
    Disconnect { timestamp: Timestamp },
    Error { timestamp: Timestamp, message: String },
}

/// When the event happened.
pub open spec fn event_timestamp(e: Event) -> Timestamp {
    match e {
        Event::ConnectStart { timestamp, .. } => timestamp,
        Event::ConnectFinish { timestamp, .. } => timestamp,
        Event::TlsStart { timestamp } => timestamp,
        Event::TlsFinish { timestamp } => timestamp,
        Event::Recv { timestamp, .. } => timestamp,
        Event::Send { timestamp, .. } => timestamp,
        Event::Disconnect { timestamp } => timestamp,
        Event::Error { timestamp, .. } => timestamp,
    }
}

/// The event's name in the transcript.
pub open spec fn event_name(e: Event) -> Seq<char> {
    match e {
        Event::ConnectStart { .. } => "connection-start"@,
        Event::ConnectFinish { .. } => "connection-complete"@,
        Event::TlsStart { .. } => "tls-start"@,
        Event::TlsFinish { .. } => "tls-complete"@,
        Event::Recv { .. } => "recv"@,
        Event::Send { .. } => "send"@,
        Event::Disconnect { .. } => "disconnect"@,
        Event::Error { .. } => "error"@,
    }
}

/// The event's own members in the transcript, after `timestamp` and `event`.
pub open spec fn event_members(e: Event) -> Seq<Seq<char>> {
    match e {
        Event::ConnectStart { host, port, .. } => seq![
            json_member("host"@, json_string(host@)),
            json_member("port"@, decimal(port as nat)),
        ],
        Event::ConnectFinish { peer_ip, .. } => seq![json_member("peer_ip"@, json_string(peer_ip@))],
        Event::Recv { data, .. } => seq![json_member("data"@, json_string(data@))],
        Event::Send { data, .. } => seq![json_member("data"@, json_string(data@))],
        Event::Error { message, .. } => seq![json_member("data"@, json_string(message@))],
        _ => Seq::empty(),
    }
}

/// The event's transcript line, given its timestamp as text (`None`: the
/// timestamp could not be written, and is `null`).
pub open spec fn event_json(e: Event, ts: Option<Seq<char>>) -> Seq<char> {
    let ts_member = match ts {
        Some(t) => json_member("timestamp"@, json_string(t)),
        None => json_member("timestamp"@, "null"@),
    };
    json_object(seq![ts_member, json_member("event"@, json_string(event_name(e)))] + event_members(e))
}

/// The text an optional string holds.
pub open spec fn text_opt(o: Option<String>) -> Option<Seq<char>> {
    match o {
        Some(t) => Some(t@),
        None => None,
    }
}

/// A plain, not reversed, run of text.
pub open spec fn plain(t: Seq<char>) -> (bool, Seq<char>) {
    (false, t)
}

/// The runs of text that describe the event on the display.
pub open spec fn event_message(e: Event) -> Seq<(bool, Seq<char>)> {
    match e {
        Event::ConnectStart { .. } => seq![plain("Connecting ..."@)],
        Event::ConnectFinish { peer, .. } => seq![plain("Connected to "@ + peer@)],
        Event::TlsStart { .. } => seq![plain("Initializing TLS ..."@)],
        Event::TlsFinish { .. } => seq![plain("TLS established"@)],
        Event::Recv { data, .. } => vis_chunks(chomped(data@)),
        Event::Send { data, .. } => vis_chunks(chomped(data@)),
        Event::Disconnect { .. } => seq![plain("Disconnected"@)],
        Event::Error { message, .. } => seq![plain(message@)],
    }
}

/// The character that marks the event's kind on the display.
pub open spec fn event_sigil(e: Event) -> char {
    match e {
        Event::Recv { .. } => '<',
        Event::Send { .. } => '>',
        Event::Error { .. } => '!',
        _ => '*',
    }
}

/// The text before the event's message on the display: the time in brackets
/// if one is given, the sigil and a space.
pub open spec fn message_prefix(e: Event, time: Option<Seq<char>>) -> Seq<char> {
    match time {
        Some(t) => seq!['['] + t + seq![']', ' ', event_sigil(e), ' '],
        None => seq![event_sigil(e), ' '],
    }
}

fn plain_chunk(s: &str) -> (r: VisChunk)
    ensures
        r.reverse == false,
        r.text@ == s@,
{
    VisChunk { reverse: false, text: s.to_owned() }
}

impl Event {
    pub fn connect_start(host: &str, port: u16) -> (r: Event)
        ensures
            r matches Event::ConnectStart { host: h, port: p, .. } && h@ == host@ && p == port,
    {
        Event::ConnectStart { timestamp: Timestamp::now(), host: host.to_owned(), port }
    }

    pub fn connect_finish(peer: &str, peer_ip: &str) -> (r: Event)
        ensures
            r matches Event::ConnectFinish { peer: p, peer_ip: i, .. } && p@ == peer@ && i@ == peer_ip@,
    {
        Event::ConnectFinish { timestamp: Timestamp::now(), peer: peer.to_owned(), peer_ip: peer_ip.to_owned() }
    }

    pub fn tls_start() -> (r: Event)
        ensures
            r is TlsStart,
    {
        Event::TlsStart { timestamp: Timestamp::now() }
    }

    pub fn tls_finish() -> (r: Event)
        ensures
            r is TlsFinish,
    {
        Event::TlsFinish { timestamp: Timestamp::now() }
    }

    pub fn recv(data: String) -> (r: Event)
        ensures
            r matches Event::Recv { data: d, .. } && d == data,
    {
        Event::Recv { timestamp: Timestamp::now(), data }
    }

    pub fn send(data: String) -> (r: Event)
        ensures
            r matches Event::Send { data: d, .. } && d == data,
    {
        Event::Send { timestamp: Timestamp::now(), data }
    }

    pub fn disconnect() -> (r: Event)
        ensures
            r is Disconnect,
    {
        Event::Disconnect { timestamp: Timestamp::now() }
    }

    pub fn error(message: String) -> (r: Event)
        ensures
            r matches Event::Error { message: m, .. } && m == message,
    {
        Event::Error { timestamp: Timestamp::now(), message }
    }

    /// When the event happened.
    pub fn timestamp(&self) -> (r: &Timestamp)
        ensures
            *r == event_timestamp(*self),
    {
        match self {
            Event::ConnectStart { timestamp, .. } => timestamp,
            Event::ConnectFinish { timestamp, .. } => timestamp,
            Event::TlsStart { timestamp } => timestamp,
            Event::TlsFinish { timestamp } => timestamp,
            Event::Recv { timestamp, .. } => timestamp,
            Event::Send { timestamp, .. } => timestamp,
            Event::Disconnect { timestamp } => timestamp,
            Event::Error { timestamp, .. } => timestamp,
        }
    }

    /// The event's time of day as `HH:MM:SS`.
    pub fn display_time(&self) -> (r: String)
        ensures
            r@ == event_timestamp(*self).spec_hms(),
    {
        self.timestamp().hms()
    }

    pub fn sigil(&self) -> (r: char)
        ensures
            r == event_sigil(*self),
    {
        match self {
            Event::Recv { .. } => '<',
            Event::Send { .. } => '>',
            Event::Error { .. } => '!',
            _ => '*',
        }
    }

    /// The runs of text of the event's message: a fixed description, or for
    /// a line sent or received the line without its line ending, with
    /// invisible characters made visible.
    pub fn message_chunks(&self) -> (r: Vec<VisChunk>)
        ensures
            chunks_view(r@) == event_message(*self),
    {
        let r = match self {
            Event::ConnectStart { .. } => vec![plain_chunk("Connecting ...")],
            Event::ConnectFinish { peer, .. } => {
                let mut text = "Connected to ".to_owned();
                text.push_str(peer.as_str());
                vec![VisChunk { reverse: false, text }]
            },
            Event::TlsStart { .. } => vec![plain_chunk("Initializing TLS ...")],
            Event::TlsFinish { .. } => vec![plain_chunk("TLS established")],
            Event::Recv { data, .. } => display_vis(chomp(data.as_str())),
            Event::Send { data, .. } => display_vis(chomp(data.as_str())),
            Event::Disconnect { .. } => vec![plain_chunk("Disconnected")],
            Event::Error { message, .. } => vec![VisChunk { reverse: false, text: message.clone() }],
        };
        assert(chunks_view(r@) =~= event_message(*self));
        r
    }

    /// The event's display line as runs of text, given the time of day to
    /// show before it, if any: a plain prefix with the time and the sigil,
    /// then the message.
    pub fn message_with_time(&self, time: Option<String>) -> (r: Vec<VisChunk>)
        ensures
            chunks_view(r@) == seq![plain(message_prefix(*self, text_opt(time)))] + event_message(*self),
    {
        let mut prefix = String::new();
        match &time {
            Some(t) => {
                prefix.push('[');
                prefix.push_str(t.as_str());
                prefix.push(']');
                prefix.push(' ');
            },
            None => {},
        }
        prefix.push(self.sigil());
        prefix.push(' ');
        assert(prefix@ =~= message_prefix(*self, text_opt(time)));
        let mut r: Vec<VisChunk> = vec![VisChunk { reverse: false, text: prefix }];
        let mut rest = self.message_chunks();
        r.append(&mut rest);
        assert(chunks_view(r@) =~= seq![plain(message_prefix(*self, text_opt(time)))] + event_message(*self));
        r
    }

    /// The event's display line as runs of text, with the event's time of
    /// day in front where `time` asks for it.
    pub fn to_message(&self, time: bool) -> (r: Vec<VisChunk>)
        ensures
            chunks_view(r@) == seq![plain(message_prefix(*self, if time {
                Some(event_timestamp(*self).spec_hms())
            } else {
                None
            }))] + event_message(*self),
    {
        let shown = if time {
            Some(self.display_time())
        } else {
            None
        };
        self.message_with_time(shown)
    }

    /// The event's name in the transcript.
    pub fn name(&self) -> (r: &'static str)
        ensures
            r@ == event_name(*self),
    {
        match self {
            Event::ConnectStart { .. } => "connection-start",
            Event::ConnectFinish { .. } => "connection-complete",
            Event::TlsStart { .. } => "tls-start",
            Event::TlsFinish { .. } => "tls-complete",
            Event::Recv { .. } => "recv",
            Event::Send { .. } => "send",
            Event::Disconnect { .. } => "disconnect",
            Event::Error { .. } => "error",
        }
    }

    /// The event's transcript line: one JSON object with the event's RFC 3339
    /// timestamp (`null` where it has none), its name and its own fields.
    pub fn to_json(&self) -> (r: String)
        ensures
            r@ == event_json(*self, event_timestamp(*self).spec_rfc3339()),
    {
        let ghost tsm = match event_timestamp(*self).spec_rfc3339() {
            Some(t) => json_member("timestamp"@, json_string(t)),
            None => json_member("timestamp"@, "null"@),
        };
        let json = match self.timestamp().rfc3339() {
            Some(t) => JsonStrMap::new().field("timestamp", t.as_str()),
            None => JsonStrMap::new().raw_field("timestamp", "null"),
        };
        assert(json@ =~= seq![tsm]);
        let json = json.field("event", self.name());
        let ghost head = json@;
        assert(head =~= seq![tsm, json_member("event"@, json_string(event_name(*self)))]);
        let members = match self {
            Event::ConnectStart { host, port, .. } => {
                let mut p = String::new();
                push_decimal(&mut p, *port);
                json.field("host", host.as_str()).raw_field("port", p.as_str())
            },
            Event::ConnectFinish { peer_ip, .. } => json.field("peer_ip", peer_ip.as_str()),
            Event::Recv { data, .. } | Event::Send { data, .. } => json.field("data", data.as_str()),
            Event::Error { message, .. } => json.field("data", message.as_str()),
            _ => json,
        };
        assert(members@ =~= head + event_members(*self));
        members.finish()
    }

}

} // verus!
