//! Soop chat protocol: a fixed 14-character packet header, bodies whose
//! fields are separated by the control character `0x0C`, and an adapter state
//! machine with a liveness flag and a periodic keepalive.

use vstd::prelude::*;
use vstd::string::*;

use crate::{Message, MessageModel, opt_messages};
use crate::json::{get_raw_field, get_string_field, get_uint_field, json_raw_field,
    json_string_field, json_uint_field};
use crate::text::{
    all_digits, dec_digits, dec_value, fmt_u64, fmt_u64_padded, lemma_dec_digits_len,
    lemma_dec_value_bound, lemma_utf8_len_ascii, lemma_utf8_len_concat, lemma_utf8_len_prefix_le,
    lemma_zero_padded_props, parse_u64, pow10, split_fields, split_fields_spec, utf8_len,
    zero_padded,
};

verus! {

/// Why a frame produced no message, or why a packet was rejected.
#[derive(Clone, Copy, Debug, PartialEq, Eq, Structural)]
pub enum SoopError {
    /// The packet is shorter than the fixed header.
    TooShort,
    /// The four type characters of the header are not decimal digits.
    BadPacketType,
    /// A chat body is missing its message or sender field.
    BadChatPacket,
    /// A donation body is missing its sender or amount field.
    BadBalloonPacket,
    /// A donation amount is not a non-negative integer.
    BadAmount,
    /// The aqua bootstrap response is missing a connection parameter.
    BadAquaResponse,
    /// The frame carries no message and the stream goes on.
    Skip,
}

impl SoopError {
    /// The wording the protocol layer reports for this condition.
    pub fn describe(&self) -> (r: String)
        ensures
            *self == SoopError::TooShort ==> r@ == "packet too short"@,
            *self == SoopError::BadPacketType ==> r@ == "failed to parse packet type"@,
            *self == SoopError::BadChatPacket ==> r@ == "invalid chatmesg packet"@,
            *self == SoopError::BadBalloonPacket ==> r@ == "invalid sendballoon packet"@,
            *self == SoopError::BadAmount ==> r@ == "failed to parse amount"@,
            *self == SoopError::BadAquaResponse ==> r@ == "invalid aqua response"@,
            *self == SoopError::Skip ==> r@ == "continue"@,
    {
        match self {
            SoopError::TooShort => "packet too short".to_owned(),
            SoopError::BadPacketType => "failed to parse packet type".to_owned(),
            SoopError::BadChatPacket => "invalid chatmesg packet".to_owned(),
            SoopError::BadBalloonPacket => "invalid sendballoon packet".to_owned(),
            SoopError::BadAmount => "failed to parse amount".to_owned(),
            SoopError::BadAquaResponse => "invalid aqua response".to_owned(),
            SoopError::Skip => "continue".to_owned(),
        }
    }
}

/// A whole outbound packet: two control characters, the zero-padded 4-digit
/// type, the zero-padded 6-digit UTF-8 byte length of the body, the literal
/// "00", and the body.
pub open spec fn packet_spec(t: nat, body: Seq<char>) -> Seq<char> {
    seq!['\u{1b}', '\u{9}'] + zero_padded(t, 4) + zero_padded(utf8_len(body), 6) + seq!['0', '0']
        + body
}

fn body_byte_len(body: &str) -> (n: usize)
    requires
        utf8_len(body@) < 1000000,
    ensures
        n as nat == utf8_len(body@),
{
    let chars = body.unicode_len();
    let mut total: usize = 0;
    let mut i: usize = 0;
    while i < chars
        invariant
            i <= chars,
            chars == body@.len(),
            utf8_len(body@) < 1000000,
            total as nat == utf8_len(body@.subrange(0, i as int)),
        decreases chars - i,
    {
        let c = body.get_char(i);
        let u = c as u32;
        let w: usize = if u < 0x80 {
            1
        } else if u < 0x800 {
            2
        } else if u < 0x10000 {
            3
        } else {
            4
        };
        proof {
            assert(body@.subrange(0, i + 1).drop_last() =~= body@.subrange(0, i as int));
            assert(body@.subrange(0, i + 1).last() == body@[i as int]);
            lemma_utf8_len_prefix_le(body@, i + 1);
        }
        total = total + w;
        i += 1;
    }
    proof {
        assert(body@.subrange(0, chars as int) =~= body@);
    }
    total
}

/// Builds an outbound packet: the 14-character header followed by the body.
pub fn write_packet(packet_type: u32, body: &str) -> (r: String)
    requires
        packet_type < 10000,
        utf8_len(body@) < 1000000,
    ensures
        r@ == packet_spec(packet_type as nat, body@),
{
    let mut s = String::new();
    s.push('\u{1b}');
    s.push('\u{9}');
    let t4 = fmt_u64_padded(packet_type as u64, 4);
    s.append(t4.as_str());
    let blen = body_byte_len(body);
    let l6 = fmt_u64_padded(blen as u64, 6);
    s.append(l6.as_str());
    s.push('0');
    s.push('0');
    s.append(body);
    proof {
        assert(s@ =~= packet_spec(packet_type as nat, body@));
    }
    s
}

/// The keepalive packet: type 0, a lone delimiter as body.
pub open spec fn keepalive_packet() -> Seq<char> {
    packet_spec(0, "\u{c}"@)
}

/// The periodic keepalive packet.
pub fn write_keepalive() -> (r: String)
    ensures
        r@ == keepalive_packet(),
{
    proof {
        reveal_strlit("\u{c}");
        lemma_utf8_len_ascii("\u{c}"@);
    }
    write_packet(0x00, "\u{c}")
}

/// The login packet: type 1, a fixed field layout as body.
pub open spec fn login_packet() -> Seq<char> {
    packet_spec(1, "\u{c}\u{c}\u{c}16\u{c}"@)
}

/// The first handshake packet.
pub fn write_login() -> (r: String)
    ensures
        r@ == login_packet(),
{
    proof {
        reveal_strlit("\u{c}\u{c}\u{c}16\u{c}");
        lemma_utf8_len_ascii("\u{c}\u{c}\u{c}16\u{c}"@);
    }
    write_packet(0x01, "\u{c}\u{c}\u{c}16\u{c}")
}

/// Body of the join-channel packet: the literal field layout around the room
/// number and the room password.
pub open spec fn joinch_body(chatno: nat, pwd: Seq<char>) -> Seq<char> {
    "\u{c}"@ + dec_digits(chatno) + "\u{c}\u{c}0\u{c}\u{c}log\u{11}\u{12}pwd\u{11}"@ + pwd
        + "\u{12}\u{c}"@
}

/// The join-channel packet: type 2 around [`joinch_body`].
pub open spec fn joinch_packet(chatno: nat, pwd: Seq<char>) -> Seq<char> {
    packet_spec(2, joinch_body(chatno, pwd))
}

/// The second handshake packet, carrying room number and password.
pub fn write_joinch(chatno: u32, pwd: &str) -> (r: String)
    requires
        utf8_len(pwd@) < 900000,
    ensures
        r@ == joinch_packet(chatno as nat, pwd@),
{
    let mut body = String::new();
    body.append("\u{c}");
    let no = fmt_u64(chatno as u64);
    body.append(no.as_str());
    body.append("\u{c}\u{c}0\u{c}\u{c}log\u{11}\u{12}pwd\u{11}");
    body.append(pwd);
    body.append("\u{12}\u{c}");
    proof {
        reveal_strlit("\u{c}");
        reveal_strlit("\u{c}\u{c}0\u{c}\u{c}log\u{11}\u{12}pwd\u{11}");
        reveal_strlit("\u{12}\u{c}");
        reveal_with_fuel(pow10, 11);
        lemma_dec_digits_len(chatno as nat, 10);
        assert(body@ =~= joinch_body(chatno as nat, pwd@));
        let a = "\u{c}"@;
        let b = dec_digits(chatno as nat);
        let c = "\u{c}\u{c}0\u{c}\u{c}log\u{11}\u{12}pwd\u{11}"@;
        let e = "\u{12}\u{c}"@;
        lemma_utf8_len_concat(a + b + c + pwd@, e);
        lemma_utf8_len_concat(a + b + c, pwd@);
        lemma_utf8_len_concat(a + b, c);
        lemma_utf8_len_concat(a, b);
        lemma_utf8_len_ascii(a);
        crate::text::lemma_dec_digits_are_digits(chatno as nat);
        assert forall|i: int| 0 <= i < b.len() implies (#[trigger] b[i] as int) < 0x80 by {
            assert(all_digits(b));
            assert(crate::text::is_digit(b[i]));
        };
        lemma_utf8_len_ascii(b);
        lemma_utf8_len_ascii(c);
        lemma_utf8_len_ascii(e);
        assert(utf8_len(body@) < 1000000);
    }
    write_packet(0x02, body.as_str())
}

/// What reading a packet yields: the numeric type from the header's four type
/// characters, and everything past the header as the body.  The declared body
/// length is deliberately not checked against the actual body.
pub open spec fn parse_packet_spec(p: Seq<char>) -> Result<(nat, Seq<char>), SoopError> {
    if p.len() < 14 {
        Err(SoopError::TooShort)
    } else if !all_digits(p.subrange(2, 6)) {
        Err(SoopError::BadPacketType)
    } else {
        Ok((dec_value(p.subrange(2, 6)), p.subrange(14, p.len() as int)))
    }
}

/// Reads a packet: rejects input shorter than the header, parses the type
/// characters, and returns the remainder as the body.
pub fn parse_packet(packet: &str) -> (r: Result<(u32, &str), SoopError>)
    ensures
        match (r, parse_packet_spec(packet@)) {
            (Ok((t, body)), Ok(s)) => t as nat == s.0 && body@ == s.1,
            (Err(e), Err(se)) => e == se,
            _ => false,
        },
{
    let n = packet.unicode_len();
    if n < 14 {
        return Err(SoopError::TooShort);
    }
    let tstr = packet.substring_char(2, 6);
    match parse_u64(tstr) {
        None => {
            proof {
                if all_digits(packet@.subrange(2, 6)) {
                    lemma_dec_value_bound(packet@.subrange(2, 6));
                    reveal_with_fuel(pow10, 5);
                }
            }
            Err(SoopError::BadPacketType)
        },
        Some(v) => {
            proof {
                lemma_dec_value_bound(packet@.subrange(2, 6));
                reveal_with_fuel(pow10, 5);
            }
            let body = packet.substring_char(14, n);
            Ok(((v as u32), body))
        },
    }
}

/// Writing a packet and reading it back yields the same type and body: the
/// header read is a partial inverse of the header write.
pub proof fn lemma_packet_roundtrip(t: nat, body: Seq<char>)
    requires
        t < 10000,
        utf8_len(body) < 1000000,
    ensures
        parse_packet_spec(packet_spec(t, body)) == Ok::<(nat, Seq<char>), SoopError>((t, body)),
{
    reveal_with_fuel(pow10, 8);
    lemma_zero_padded_props(t, 4);
    lemma_zero_padded_props(utf8_len(body), 6);
    let p = packet_spec(t, body);
    assert(p.len() == 14 + body.len());
    assert(p.subrange(2, 6) =~= zero_padded(t, 4));
    assert(p.subrange(14, p.len() as int) =~= body);
}

/// What a chat body means: the message text at field 1, the sender name four
/// fields further on; too few fields is a decode error.
pub open spec fn chatmesg_spec(body: Seq<char>) -> Result<MessageModel, SoopError> {
    let f = split_fields_spec(body, '\u{c}');
    if f.len() >= 6 {
        Ok(MessageModel { sender: f[5], content: Some(f[1]), donated: None })
    } else {
        Err(SoopError::BadChatPacket)
    }
}

/// Decodes a chat-message body.
pub fn handle_chatmesg(body: &str) -> (r: Result<Message, SoopError>)
    ensures
        match (r, chatmesg_spec(body@)) {
            (Ok(m), Ok(s)) => m@ == s,
            (Err(e), Err(se)) => e == se,
            _ => false,
        },
{
    let fields = split_fields(body, '\u{c}');
    if fields.len() < 6 {
        return Err(SoopError::BadChatPacket);
    }
    let content = fields[1].clone();
    let sender = fields[5].clone();
    Ok(Message { sender, content: Some(content), donated: None })
}

/// What a donation body means: the sender at field 2, the amount one field
/// further on, parsed as a non-negative integer.
pub open spec fn sendballoon_spec(body: Seq<char>) -> Result<MessageModel, SoopError> {
    let f = split_fields_spec(body, '\u{c}');
    if f.len() < 4 {
        Err(SoopError::BadBalloonPacket)
    } else if f[3].len() > 0 && all_digits(f[3]) && dec_value(f[3]) <= u64::MAX {
        Ok(MessageModel { sender: f[2], content: None, donated: Some(dec_value(f[3]) as u64) })
    } else {
        Err(SoopError::BadAmount)
    }
}

/// Decodes a donation ("balloon") body.
pub fn handle_sendballoon(body: &str) -> (r: Result<Message, SoopError>)
    ensures
        match (r, sendballoon_spec(body@)) {
            (Ok(m), Ok(s)) => m@ == s,
            (Err(e), Err(se)) => e == se,
            _ => false,
        },
{
    let fields = split_fields(body, '\u{c}');
    if fields.len() < 4 {
        return Err(SoopError::BadBalloonPacket);
    }
    let sender = fields[2].clone();
    match parse_u64(fields[3].as_str()) {
        None => Err(SoopError::BadAmount),
        Some(amount) => Ok(Message { sender, content: None, donated: Some(amount) }),
    }
}

/// A broadcaster-status-change frame: always a terminal signal.  It lowers
/// the liveness flag and reports a skip, never a message.
pub fn handle_setbjstat(alive: &mut bool) -> (r: Result<Message, SoopError>)
    ensures
        *final(alive) == false,
        r == Err::<Message, SoopError>(SoopError::Skip),
{
    *alive = false;
    Err(SoopError::Skip)
}

/// What one inbound frame decodes to: a chat packet (type 5) or a donation
/// packet (type 18) may yield a message; a status change (type 7) and every
/// other type yield a skip.
pub open spec fn frame_message(text: Seq<char>) -> Result<MessageModel, SoopError> {
    match parse_packet_spec(text) {
        Err(e) => Err(e),
        Ok(p) => if p.0 == 5 {
            chatmesg_spec(p.1)
        } else if p.0 == 18 {
            sendballoon_spec(p.1)
        } else {
            Err(SoopError::Skip)
        },
    }
}

/// Whether a frame is a broadcaster-status-change signal, which lowers the
/// liveness flag.
pub open spec fn frame_kills(text: Seq<char>) -> bool {
    parse_packet_spec(text) matches Ok(p) && p.0 == 7
}

/// Decodes one inbound frame and maintains the liveness flag.
pub fn handle_message(text: &str, alive: &mut bool) -> (r: Result<Message, SoopError>)
    ensures
        *final(alive) == (*old(alive) && !frame_kills(text@)),
        match (r, frame_message(text@)) {
            (Ok(m), Ok(s)) => m@ == s,
            (Err(e), Err(se)) => e == se,
            _ => false,
        },
{
    match parse_packet(text) {
        Err(e) => Err(e),
        Ok((packet_type, body)) => {
            if packet_type == 0x05 {
                handle_chatmesg(body)
            } else if packet_type == 0x07 {
                handle_setbjstat(alive)
            } else if packet_type == 0x12 {
                handle_sendballoon(body)
            } else {
                Err(SoopError::Skip)
            }
        },
    }
}

/// The string field `key` inside the aqua response's `CHANNEL` object.
pub open spec fn aqua_channel_field(text: Seq<char>, key: Seq<char>) -> Option<Seq<char>> {
    match json_raw_field(text, "CHANNEL"@) {
        None => None,
        Some(c) => json_string_field(c, key),
    }
}

/// Reads the aqua bootstrap response: chat domain, chat port, chat room
/// number and room password.  Any missing or unusable field fails — no
/// default connection parameter is ever substituted.
pub fn resolve_aqua_session(text: &str) -> (r: Result<(String, String, u32, String), SoopError>)
    ensures
        r is Ok <==> (aqua_channel_field(text@, "CHDOMAIN"@) is Some && aqua_channel_field(
            text@,
            "CHPT"@,
        ) is Some && (json_raw_field(text@, "CHANNEL"@) matches Some(c) && json_uint_field(
            c,
            "CHATNO"@,
        ) matches Some(n) && n <= u32::MAX as u64) && aqua_channel_field(text@, "PWD"@) is Some),
        r matches Ok(v) ==> ({
            &&& Some(v.0@) == aqua_channel_field(text@, "CHDOMAIN"@)
            &&& Some(v.1@) == aqua_channel_field(text@, "CHPT"@)
            &&& (json_raw_field(text@, "CHANNEL"@) matches Some(c) && json_uint_field(
                c,
                "CHATNO"@,
            ) == Some(v.2 as u64))
            &&& Some(v.3@) == aqua_channel_field(text@, "PWD"@)
        }),
        r is Err ==> r == Err::<(String, String, u32, String), SoopError>(
            SoopError::BadAquaResponse,
        ),
{
    let channel = match get_raw_field(text, "CHANNEL") {
        None => { return Err(SoopError::BadAquaResponse); },
        Some(c) => c,
    };
    let domain = match get_string_field(channel.as_str(), "CHDOMAIN") {
        None => { return Err(SoopError::BadAquaResponse); },
        Some(d) => d,
    };
    let port = match get_string_field(channel.as_str(), "CHPT") {
        None => { return Err(SoopError::BadAquaResponse); },
        Some(p) => p,
    };
    let chatno_wide = match get_uint_field(channel.as_str(), "CHATNO") {
        None => { return Err(SoopError::BadAquaResponse); },
        Some(n) => n,
    };
    if chatno_wide > u32::MAX as u64 {
        return Err(SoopError::BadAquaResponse);
    }
    let chatno = chatno_wide as u32;
    let pwd = match get_string_field(channel.as_str(), "PWD") {
        None => { return Err(SoopError::BadAquaResponse); },
        Some(p) => p,
    };
    Ok((domain, port, chatno, pwd))
}

/// Where a Soop connection stands in its life cycle.
#[derive(Clone, Copy, Debug, PartialEq, Eq, Structural)]
pub enum SoopPhase {
    /// Opening the websocket.
    Connecting,
    /// Sending the login and join-channel packets.
    Handshaking,
    /// Waiting to read and discard one frame, assumed a join acknowledgment.
    AckDiscard,
    /// Decoding inbound frames while the keepalive runs.
    Streaming,
    /// The stream has ended; there is no reconnect.
    Terminated,
}

/// The decision core of a Soop connection: which handshake packets to send,
/// what each inbound frame yields, when the keepalive must stop.  The caller
/// performs the network work and reports each outcome back.
pub struct SoopAdapter {
    pub phase: SoopPhase,
    pub chatno: u32,
    pub pwd: String,
    pub alive: bool,
}

/// Mathematical model of a [`SoopAdapter`].
pub ghost struct SoopAdapterModel {
    pub phase: SoopPhase,
    pub chatno: u32,
    pub pwd: Seq<char>,
    pub alive: bool,
}

impl View for SoopAdapter {
    type V = SoopAdapterModel;

    open spec fn view(&self) -> SoopAdapterModel {
        SoopAdapterModel {
            phase: self.phase,
            chatno: self.chatno,
            pwd: self.pwd@,
            alive: self.alive,
        }
    }
}

/// How one inbound frame moves the adapter: while streaming, a kill frame
/// lowers the liveness flag and a decodable frame yields its message; in any
/// other phase nothing changes and nothing is produced.
pub open spec fn step_frame(m: SoopAdapterModel, text: Seq<char>) -> (SoopAdapterModel, Option<
    MessageModel,
>) {
    if m.phase == SoopPhase::Streaming {
        (
            SoopAdapterModel { alive: m.alive && !frame_kills(text), ..m },
            match frame_message(text) {
                Ok(msg) => Some(msg),
                Err(e) => None,
            },
        )
    } else {
        (m, None)
    }
}

/// The keepalive packet owed at a tick: one while the connection streams and
/// the liveness flag holds, none otherwise.
pub open spec fn keepalive_due_spec(m: SoopAdapterModel) -> Option<Seq<char>> {
    if m.phase == SoopPhase::Streaming && m.alive {
        Some(keepalive_packet())
    } else {
        None
    }
}

impl SoopAdapter {
    /// A fresh connection attempt for one chat room.
    pub fn new(chatno: u32, pwd: String) -> (a: SoopAdapter)
        requires
            utf8_len(pwd@) < 900000,
        ensures
            a@ == (SoopAdapterModel {
                phase: SoopPhase::Connecting,
                chatno,
                pwd: pwd@,
                alive: true,
            }),
    {
        SoopAdapter { phase: SoopPhase::Connecting, chatno, pwd, alive: true }
    }

    /// Reports the websocket connect outcome; on success hands back the login
    /// and join-channel packets to send, in that order.
    pub fn on_connect(&mut self, ok: bool) -> (frames: Option<(String, String)>)
        requires
            old(self)@.phase == SoopPhase::Connecting,
            utf8_len(old(self)@.pwd) < 900000,
        ensures
            final(self)@ == (SoopAdapterModel {
                phase: if ok {
                    SoopPhase::Handshaking
                } else {
                    SoopPhase::Terminated
                },
                ..old(self)@
            }),
            ok ==> (frames matches Some(f) && f.0@ == login_packet() && f.1@ == joinch_packet(
                old(self)@.chatno as nat,
                old(self)@.pwd,
            )),
            !ok ==> frames is None,
    {
        if ok {
            self.phase = SoopPhase::Handshaking;
            let join = write_joinch(self.chatno, self.pwd.as_str());
            Some((write_login(), join))
        } else {
            self.phase = SoopPhase::Terminated;
            None
        }
    }

    /// Reports whether both handshake packets went out; a send failure ends
    /// the connection.
    pub fn on_handshake_sent(&mut self, ok: bool)
        requires
            old(self)@.phase == SoopPhase::Handshaking,
        ensures
            final(self)@ == (SoopAdapterModel {
                phase: if ok {
                    SoopPhase::AckDiscard
                } else {
                    SoopPhase::Terminated
                },
                ..old(self)@
            }),
    {
        self.phase = if ok {
            SoopPhase::AckDiscard
        } else {
            SoopPhase::Terminated
        };
    }

    /// Consumes the one frame read after the handshake without looking at it,
    /// assumed to be a join acknowledgment.
    pub fn on_ack(&mut self)
        requires
            old(self)@.phase == SoopPhase::AckDiscard,
        ensures
            final(self)@ == (SoopAdapterModel { phase: SoopPhase::Streaming, ..old(self)@ }),
    {
        self.phase = SoopPhase::Streaming;
    }

    /// Decodes one inbound frame per [`step_frame`]: at most one message, and
    /// a status-change frame lowers the liveness flag.
    pub fn on_frame(&mut self, text: &str) -> (r: Option<Message>)
        ensures
            final(self)@ == step_frame(old(self)@, text@).0,
            r.deep_view() == step_frame(old(self)@, text@).1,
    {
        if !(self.phase == SoopPhase::Streaming) {
            return None;
        }
        let mut alive = self.alive;
        let res = handle_message(text, &mut alive);
        self.alive = alive;
        match res {
            Ok(m) => Some(m),
            Err(_) => None,
        }
    }

    /// The keepalive packet owed at this tick, if any.
    pub fn keepalive_frame(&self) -> (r: Option<String>)
        ensures
            r.deep_view() == keepalive_due_spec(self@),
    {
        if self.phase == SoopPhase::Streaming && self.alive {
            Some(write_keepalive())
        } else {
            None
        }
    }

    /// Reports a keepalive send outcome; a failure ends the connection.
    pub fn on_keepalive_sent(&mut self, ok: bool)
        ensures
            final(self)@ == (SoopAdapterModel {
                phase: if ok {
                    old(self)@.phase
                } else {
                    SoopPhase::Terminated
                },
                ..old(self)@
            }),
    {
        if !ok {
            self.phase = SoopPhase::Terminated;
        }
    }

    /// The keepalive task has stopped (liveness lost or socket gone): the
    /// stream ends.
    pub fn on_keepalive_stop(&mut self)
        ensures
            final(self)@ == (SoopAdapterModel { phase: SoopPhase::Terminated, ..old(self)@ }),
    {
        self.phase = SoopPhase::Terminated;
    }

    /// Caller-issued stop; idempotent, and indistinguishable from natural
    /// termination.
    pub fn cancel(&mut self)
        ensures
            final(self)@ == (SoopAdapterModel { phase: SoopPhase::Terminated, ..old(self)@ }),
    {
        self.phase = SoopPhase::Terminated;
    }

    pub fn is_terminated(&self) -> (r: bool)
        ensures
            r == (self@.phase == SoopPhase::Terminated),
    {
        self.phase == SoopPhase::Terminated
    }
}

/// The messages an adapter emits over a whole run of inbound frames, in
/// arrival order.
pub open spec fn run_frames(m: SoopAdapterModel, frames: Seq<Seq<char>>) -> (
    SoopAdapterModel,
    Seq<MessageModel>,
)
    decreases frames.len(),
{
    if frames.len() == 0 {
        (m, Seq::<MessageModel>::empty())
    } else {
        let first = step_frame(m, frames[0]);
        let rest = run_frames(first.0, frames.drop_first());
        (rest.0, opt_messages(first.1) + rest.1)
    }
}

/// Feeding frames in two batches emits the same messages, in the same order,
/// as feeding them all at once.
pub proof fn lemma_run_frames_append(m: SoopAdapterModel, a: Seq<Seq<char>>, b: Seq<Seq<char>>)
    ensures
        run_frames(m, a + b).0 == run_frames(run_frames(m, a).0, b).0,
        run_frames(m, a + b).1 == run_frames(m, a).1 + run_frames(run_frames(m, a).0, b).1,
    decreases a.len(),
{
    if a.len() == 0 {
        assert(a + b =~= b);
        assert(run_frames(m, a).1 + run_frames(run_frames(m, a).0, b).1 =~= run_frames(m, b).1);
    } else {
        let first = step_frame(m, a[0]);
        assert((a + b)[0] == a[0]);
        assert((a + b).drop_first() =~= a.drop_first() + b);
        lemma_run_frames_append(first.0, a.drop_first(), b);
        let x = run_frames(first.0, a.drop_first()).1;
        let y = run_frames(run_frames(first.0, a.drop_first()).0, b).1;
        assert(opt_messages(first.1) + (x + y) =~= (opt_messages(first.1) + x) + y);
    }
}

/// A frame that decodes to no message — malformed, unknown type, or a status
/// change — contributes nothing to the emitted messages.
pub proof fn lemma_undecodable_frame_dropped(
    m: SoopAdapterModel,
    frames: Seq<Seq<char>>,
    bad: Seq<char>,
)
    requires
        frame_message(bad) is Err,
    ensures
        run_frames(m, frames.push(bad)).1 == run_frames(m, frames).1,
{
    lemma_run_frames_append(m, frames, seq![bad]);
    assert(frames.push(bad) =~= frames + seq![bad]);
    let mid = run_frames(m, frames).0;
    assert(seq![bad].drop_first() =~= Seq::<Seq<char>>::empty());
    assert(seq![bad][0] == bad);
    assert(step_frame(mid, bad).1 is None);
    assert(run_frames(mid, seq![bad]).1 =~= opt_messages(step_frame(mid, bad).1) + run_frames(
        step_frame(mid, bad).0,
        Seq::<Seq<char>>::empty(),
    ).1);
    assert(run_frames(mid, seq![bad]).1 =~= Seq::<MessageModel>::empty());
    assert(run_frames(m, frames).1 + run_frames(mid, seq![bad]).1 =~= run_frames(m, frames).1);
}

/// After termination — cancellation included — no frame yields a further
/// message and the state no longer moves.
pub proof fn lemma_terminated_yields_nothing(m: SoopAdapterModel, frames: Seq<Seq<char>>)
    requires
        m.phase == SoopPhase::Terminated,
    ensures
        run_frames(m, frames).0 == m,
        run_frames(m, frames).1 == Seq::<MessageModel>::empty(),
    decreases frames.len(),
{
    if frames.len() > 0 {
        lemma_terminated_yields_nothing(m, frames.drop_first());
        assert(opt_messages(step_frame(m, frames[0]).1) + run_frames(m, frames.drop_first()).1
            =~= Seq::<MessageModel>::empty());
    }
}

/// While streaming, every frame that decodes to a message is emitted: over a
/// run of well-formed frames, exactly one message comes out per frame.
pub proof fn lemma_wellformed_frames_all_emitted(m: SoopAdapterModel, frames: Seq<Seq<char>>)
    requires
        m.phase == SoopPhase::Streaming,
        forall|i: int| 0 <= i < frames.len() ==> #[trigger] frame_message(frames[i]) is Ok,
    ensures
        run_frames(m, frames).1.len() == frames.len(),
    decreases frames.len(),
{
    if frames.len() > 0 {
        let first = step_frame(m, frames[0]);
        assert(frame_message(frames[0]) is Ok);
        assert(opt_messages(first.1).len() == 1);
        assert forall|i: int|
            0 <= i < frames.drop_first().len() implies #[trigger] frame_message(
            frames.drop_first()[i],
        ) is Ok by {
            assert(frames.drop_first()[i] == frames[i + 1]);
        };
        lemma_wellformed_frames_all_emitted(first.0, frames.drop_first());
    }
}

/// A status-change frame lowers the liveness flag, and with it down no
/// keepalive packet is due any more: the keepalive task stops at its next
/// scheduled tick at the latest.
pub proof fn lemma_status_change_stops_keepalive(m: SoopAdapterModel, text: Seq<char>)
    requires
        m.phase == SoopPhase::Streaming,
        frame_kills(text),
    ensures
        step_frame(m, text).0.alive == false,
        keepalive_due_spec(step_frame(m, text).0) is None,
{
}

} // verus!
