//! Chzzk chat protocol: a JSON command envelope with double-encoded nested
//! payloads, a two-call session bootstrap, and an adapter state machine with
//! a periodic ping/pong keepalive.

use vstd::prelude::*;
use vstd::string::*;

use crate::{Message, MessageModel, opt_messages};
use crate::json::{
    get_array_items, get_int_field, get_raw_field, get_string_field, get_uint_field, has_field,
    is_object_text, json_array_items, json_has_field, json_int_field, json_is_object,
    json_raw_field, json_string_field, json_uint_field,
};
use crate::text::{dec_digits, escape_into, fmt_i64, fmt_u64, json_escaped, signed_dec_digits};

verus! {

/// Why session bootstrap failed.  Bootstrap failures are the only errors a
/// caller must handle explicitly: once a stream runs, trouble only ends it.
#[derive(Debug, PartialEq, Eq)]
pub enum ChzzkError {
    /// The response was not the expected `{code, message, content}` envelope.
    BadEnvelope,
    /// The envelope carried a code other than 200, with its optional message.
    Api { code: i64, message: Option<String> },
}

/// The text a bootstrap error reports: the API code and, when one came, the
/// server's message.
pub open spec fn chzzk_error_text(code: int, message: Option<Seq<char>>) -> Seq<char> {
    match message {
        Some(m) => "chzzk api error: "@ + signed_dec_digits(code) + " ("@ + m + ")"@,
        None => "chzzk api error: "@ + signed_dec_digits(code),
    }
}

impl ChzzkError {
    /// The wording the bootstrap reports for this failure.
    pub fn describe(&self) -> (r: String)
        ensures
            match *self {
                ChzzkError::BadEnvelope => r@ == "chzzk api response not understood"@,
                ChzzkError::Api { code, message } => r@ == chzzk_error_text(
                    code as int,
                    message.deep_view(),
                ),
            },
    {
        match self {
            ChzzkError::BadEnvelope => "chzzk api response not understood".to_owned(),
            ChzzkError::Api { code, message } => {
                let mut s = String::new();
                s.append("chzzk api error: ");
                let digits = fmt_i64(*code);
                s.append(digits.as_str());
                match message {
                    Some(m) => {
                        s.append(" (");
                        s.append(m.as_str());
                        s.append(")");
                        proof {
                            assert(s@ =~= chzzk_error_text(*code as int, Some(m@)));
                        }
                    },
                    None => {
                        proof {
                            assert(s@ =~= chzzk_error_text(*code as int, None));
                        }
                    },
                }
                s
            },
        }
    }
}

/// The reported text carries the code's digits and, when one came, the
/// server's message, both verbatim and at fixed offsets around them.
pub proof fn lemma_error_text_carries_code_and_message(code: int, m: Seq<char>)
    ensures
        ({
            let t = chzzk_error_text(code, Some(m));
            let d = signed_dec_digits(code);
            &&& t.subrange(17, 17 + d.len() as int) == d
            &&& t.subrange(
                19 + d.len() as int,
                19 + d.len() as int + m.len() as int,
            ) == m
        }),
{
    reveal_strlit("chzzk api error: ");
    reveal_strlit(" (");
    reveal_strlit(")");
    let t = chzzk_error_text(code, Some(m));
    let d = signed_dec_digits(code);
    assert(t.subrange(17, 17 + d.len() as int) =~= d);
    assert(t.subrange(19 + d.len() as int, 19 + d.len() as int + m.len() as int) =~= m);
}

/// The string field `key` inside the envelope's `content` object.
pub open spec fn content_field(text: Seq<char>, key: Seq<char>) -> Option<Seq<char>> {
    match json_raw_field(text, "content"@) {
        None => None,
        Some(c) => json_string_field(c, key),
    }
}

/// A bootstrap response is usable exactly when its code is 200 and the asked
/// for content field is present.
pub open spec fn envelope_ok(text: Seq<char>, key: Seq<char>) -> bool {
    json_int_field(text, "code"@) == Some(200i64) && content_field(text, key) is Some
}

/// A non-200 code is reported as an [`ChzzkError::Api`] error that carries
/// exactly the envelope's code and its optional message.
pub open spec fn api_error_reported(r: Result<String, ChzzkError>, text: Seq<char>) -> bool {
    match r {
        Ok(_) => false,
        Err(e) => match e {
            ChzzkError::BadEnvelope => false,
            ChzzkError::Api { code, message } => Some(code) == json_int_field(text, "code"@)
                && message.deep_view() == json_string_field(text, "message"@),
        },
    }
}

/// Reads one bootstrap response envelope `{code, message, content}`: a code
/// other than 200 fails with that code and the optional message — never a
/// silently substituted default — and on 200 the string field `key` of
/// `content` is returned.
pub fn extract_content_field(text: &str, key: &str) -> (r: Result<String, ChzzkError>)
    ensures
        r is Ok <==> envelope_ok(text@, key@),
        r is Ok ==> Some(r->Ok_0@) == content_field(text@, key@),
        json_int_field(text@, "code"@) is None ==> r == Err::<String, ChzzkError>(
            ChzzkError::BadEnvelope,
        ),
        (json_int_field(text@, "code"@) is Some && json_int_field(text@, "code"@) != Some(200i64))
            ==> api_error_reported(r, text@),
        (json_int_field(text@, "code"@) == Some(200i64) && content_field(text@, key@) is None)
            ==> r == Err::<String, ChzzkError>(ChzzkError::BadEnvelope),
{
    match get_int_field(text, "code") {
        None => Err(ChzzkError::BadEnvelope),
        Some(code) => {
            if code != 200 {
                let message = get_string_field(text, "message");
                Err(ChzzkError::Api { code, message })
            } else {
                match get_raw_field(text, "content") {
                    None => Err(ChzzkError::BadEnvelope),
                    Some(content) => match get_string_field(content.as_str(), key) {
                        None => Err(ChzzkError::BadEnvelope),
                        Some(v) => Ok(v),
                    },
                }
            }
        },
    }
}

/// Reads the chat-channel identifier from the first bootstrap response,
/// with the same error contract as [`extract_content_field`].
pub fn resolve_channel_id(text: &str) -> (r: Result<String, ChzzkError>)
    ensures
        r is Ok <==> envelope_ok(text@, "chatChannelId"@),
        r is Ok ==> Some(r->Ok_0@) == content_field(text@, "chatChannelId"@),
        json_int_field(text@, "code"@) is None ==> r == Err::<String, ChzzkError>(
            ChzzkError::BadEnvelope,
        ),
        (json_int_field(text@, "code"@) is Some && json_int_field(text@, "code"@) != Some(200i64))
            ==> api_error_reported(r, text@),
        (json_int_field(text@, "code"@) == Some(200i64) && content_field(
            text@,
            "chatChannelId"@,
        ) is None) ==> r == Err::<String, ChzzkError>(ChzzkError::BadEnvelope),
{
    extract_content_field(text, "chatChannelId")
}

/// Reads the access token from the second bootstrap response, with the same
/// error contract as [`extract_content_field`].
pub fn resolve_access_token(text: &str) -> (r: Result<String, ChzzkError>)
    ensures
        r is Ok <==> envelope_ok(text@, "accessToken"@),
        r is Ok ==> Some(r->Ok_0@) == content_field(text@, "accessToken"@),
        json_int_field(text@, "code"@) is None ==> r == Err::<String, ChzzkError>(
            ChzzkError::BadEnvelope,
        ),
        (json_int_field(text@, "code"@) is Some && json_int_field(text@, "code"@) != Some(200i64))
            ==> api_error_reported(r, text@),
        (json_int_field(text@, "code"@) == Some(200i64) && content_field(
            text@,
            "accessToken"@,
        ) is None) ==> r == Err::<String, ChzzkError>(ChzzkError::BadEnvelope),
{
    extract_content_field(text, "accessToken")
}

/// `s` as a JSON string literal: quoted and escaped.
pub open spec fn json_string_lit(s: Seq<char>) -> Seq<char> {
    seq!['"'] + json_escaped(s) + seq!['"']
}

/// The command envelope: fixed service id "game", the channel id, the
/// command code, the fixed version 3, and the body serialized a second time
/// as a JSON string value under `bdy`.
pub open spec fn envelope_spec(cid: Seq<char>, cmd: nat, body: Seq<char>) -> Seq<char> {
    "{\"svcid\":\"game\",\"cid\":"@ + json_string_lit(cid) + ",\"cmd\":"@ + dec_digits(cmd)
        + ",\"ver\":3,\"bdy\":"@ + json_string_lit(body) + "}"@
}

fn append_json_string(s: &mut String, t: &str)
    ensures
        final(s)@ == old(s)@ + json_string_lit(t@),
{
    s.push('"');
    escape_into(t, s);
    s.push('"');
    proof {
        assert(s@ =~= old(s)@ + json_string_lit(t@));
    }
}

/// Wraps an already serialized body in the command envelope.
pub fn encode_envelope(channel_id: &str, command: u64, body: &str) -> (r: String)
    ensures
        r@ == envelope_spec(channel_id@, command as nat, body@),
{
    let mut s = String::new();
    s.append("{\"svcid\":\"game\",\"cid\":");
    append_json_string(&mut s, channel_id);
    s.append(",\"cmd\":");
    let c = fmt_u64(command);
    s.append(c.as_str());
    s.append(",\"ver\":3,\"bdy\":");
    append_json_string(&mut s, body);
    s.append("}");
    proof {
        assert(s@ =~= envelope_spec(channel_id@, command as nat, body@));
    }
    s
}

/// Serialized Auth command body: the access token and the fixed "READ" scope.
pub open spec fn auth_body(token: Seq<char>) -> Seq<char> {
    "{\"accTkn\":"@ + json_string_lit(token) + ",\"auth\":\"READ\"}"@
}

/// The full Auth envelope for a channel: command code 100, version 3.
pub open spec fn auth_envelope(cid: Seq<char>, token: Seq<char>) -> Seq<char> {
    envelope_spec(cid, 100, auth_body(token))
}

/// The Ping keepalive envelope: command code 0, empty body.
pub open spec fn ping_envelope(cid: Seq<char>) -> Seq<char> {
    envelope_spec(cid, 0, "null"@)
}

/// The Pong keepalive envelope: command code 10000, empty body.
pub open spec fn pong_envelope(cid: Seq<char>) -> Seq<char> {
    envelope_spec(cid, 10000, "null"@)
}

/// The Auth command body: sent as the first frame of every connection.
pub struct Auth {
    pub access_token: String,
    pub auth: String,
}

impl Auth {
    /// An Auth body for one access token, always with the "READ" scope.
    pub fn new(access_token: String) -> (a: Auth)
        ensures
            a.access_token@ == access_token@,
            a.auth@ == "READ"@,
    {
        Auth { access_token, auth: "READ".to_owned() }
    }

    /// The command code of Auth.
    pub fn command(&self) -> (c: u64)
        ensures
            c == 100,
    {
        100
    }

    /// The envelope version of all current commands.
    pub fn version(&self) -> (v: u64)
        ensures
            v == 3,
    {
        3
    }

    /// The whole Auth envelope for a channel.
    pub fn encode(&self, channel_id: &str) -> (r: String)
        ensures
            r@ == auth_envelope(channel_id@, self.access_token@),
    {
        let mut body = String::new();
        body.append("{\"accTkn\":");
        append_json_string(&mut body, self.access_token.as_str());
        body.append(",\"auth\":\"READ\"}");
        proof {
            assert(body@ =~= auth_body(self.access_token@));
        }
        encode_envelope(channel_id, 100, body.as_str())
    }
}

/// The Ping frame owed every keepalive tick.
pub fn encode_ping(channel_id: &str) -> (r: String)
    ensures
        r@ == ping_envelope(channel_id@),
{
    encode_envelope(channel_id, 0, "null")
}

/// The Pong frame sent right after each Ping.
pub fn encode_pong(channel_id: &str) -> (r: String)
    ensures
        r@ == pong_envelope(channel_id@),
{
    encode_envelope(channel_id, 10000, "null")
}

/// What one chat event decodes to.  `profile` and `extras` are themselves
/// JSON-encoded strings and are parsed a second time; failure of either
/// parse drops the event.
pub open spec fn decode_event_spec(ev: Seq<char>) -> Option<MessageModel> {
    match json_string_field(ev, "profile"@) {
        None => None,
        Some(profile) => match json_string_field(profile, "nickname"@) {
            None => None,
            Some(nickname) => match json_string_field(ev, "msg"@) {
                None => None,
                Some(msg) => match json_string_field(ev, "extras"@) {
                    None => None,
                    Some(extras) => if !json_is_object(extras) {
                        None
                    } else if json_has_field(extras, "payAmount"@) {
                        match json_uint_field(extras, "payAmount"@) {
                            None => None,
                            Some(amount) => Some(
                                MessageModel {
                                    sender: nickname,
                                    content: Some(msg),
                                    donated: Some(amount),
                                },
                            ),
                        }
                    } else {
                        Some(MessageModel { sender: nickname, content: Some(msg), donated: None })
                    },
                },
            },
        },
    }
}

/// Decodes one chat event; a malformed event yields nothing rather than an
/// error.
pub fn decode_chat_event(ev: &str) -> (r: Option<Message>)
    ensures
        r.deep_view() == decode_event_spec(ev@),
{
    let profile = match get_string_field(ev, "profile") {
        None => { return None; },
        Some(p) => p,
    };
    let nickname = match get_string_field(profile.as_str(), "nickname") {
        None => { return None; },
        Some(n) => n,
    };
    let msg = match get_string_field(ev, "msg") {
        None => { return None; },
        Some(m) => m,
    };
    let extras = match get_string_field(ev, "extras") {
        None => { return None; },
        Some(x) => x,
    };
    if !is_object_text(extras.as_str()) {
        return None;
    }
    if has_field(extras.as_str(), "payAmount") {
        match get_uint_field(extras.as_str(), "payAmount") {
            None => None,
            Some(amount) => Some(
                Message { sender: nickname, content: Some(msg), donated: Some(amount) },
            ),
        }
    } else {
        Some(Message { sender: nickname, content: Some(msg), donated: None })
    }
}

/// The messages of a list of events, in order, malformed ones dropped.
pub open spec fn decode_events_spec(items: Seq<Seq<char>>) -> Seq<MessageModel>
    decreases items.len(),
{
    if items.len() == 0 {
        Seq::<MessageModel>::empty()
    } else {
        decode_events_spec(items.drop_last()) + opt_messages(decode_event_spec(items.last()))
    }
}

/// What one inbound frame decodes to: the envelope's `bdy` string, parsed
/// again as a JSON list of chat events; any failure along the way yields
/// zero messages.
pub open spec fn decode_frame_spec(frame: Seq<char>) -> Seq<MessageModel> {
    match json_string_field(frame, "bdy"@) {
        None => Seq::<MessageModel>::empty(),
        Some(b) => match json_array_items(b) {
            None => Seq::<MessageModel>::empty(),
            Some(items) => decode_events_spec(items),
        },
    }
}

/// Decodes one inbound frame into zero or more messages; decode failures are
/// filtered, not propagated.
pub fn decode_frame(frame: &str) -> (r: Vec<Message>)
    ensures
        r.deep_view() == decode_frame_spec(frame@),
{
    let body = match get_string_field(frame, "bdy") {
        None => { return Vec::new(); },
        Some(b) => b,
    };
    let items = match get_array_items(body.as_str()) {
        None => { return Vec::new(); },
        Some(v) => v,
    };
    let ghost gitems = items.deep_view();
    let mut out: Vec<Message> = Vec::new();
    let mut i: usize = 0;
    while i < items.len()
        invariant
            i <= items.len(),
            gitems == items.deep_view(),
            gitems.len() == items.len(),
            out.deep_view() =~= decode_events_spec(gitems.subrange(0, i as int)),
        decreases items.len() - i,
    {
        let ghost pout = out.deep_view();
        let decoded = decode_chat_event(items[i].as_str());
        match decoded {
            Some(m) => {
                out.push(m);
                proof {
                    assert(out.deep_view() =~= pout.push(m@));
                }
            },
            None => {},
        }
        proof {
            assert(gitems.subrange(0, i + 1).drop_last() =~= gitems.subrange(0, i as int));
            assert(gitems.subrange(0, i + 1).last() == gitems[i as int]);
            assert(out.deep_view() =~= decode_events_spec(gitems.subrange(0, i + 1)));
        }
        i += 1;
    }
    proof {
        assert(gitems.subrange(0, gitems.len() as int) =~= gitems);
    }
    out
}

/// Where a Chzzk connection stands in its life cycle.
#[derive(Clone, Copy, Debug, PartialEq, Eq, Structural)]
pub enum ChzzkPhase {
    /// Opening the websocket.
    Connecting,
    /// Sending the Auth command as the first frame.
    Authenticating,
    /// Decoding inbound frames while the ping/pong keepalive runs.
    Streaming,
    /// The stream has ended; there is no reconnect.
    Terminated,
}

/// The decision core of a Chzzk connection: which frames to send and what
/// each inbound frame yields.  The caller performs the network work and
/// reports each outcome back.
pub struct ChzzkAdapter {
    pub phase: ChzzkPhase,
    pub channel_id: String,
    pub access_token: String,
}

/// Mathematical model of a [`ChzzkAdapter`].
pub ghost struct ChzzkAdapterModel {
    pub phase: ChzzkPhase,
    pub channel_id: Seq<char>,
    pub access_token: Seq<char>,
}

impl View for ChzzkAdapter {
    type V = ChzzkAdapterModel;

    open spec fn view(&self) -> ChzzkAdapterModel {
        ChzzkAdapterModel {
            phase: self.phase,
            channel_id: self.channel_id@,
            access_token: self.access_token@,
        }
    }
}

/// How one inbound frame moves the adapter: while streaming it yields the
/// frame's messages and the state stands still; in any other phase nothing
/// is produced.
pub open spec fn step_frame(m: ChzzkAdapterModel, frame: Seq<char>) -> Seq<MessageModel> {
    if m.phase == ChzzkPhase::Streaming {
        decode_frame_spec(frame)
    } else {
        Seq::<MessageModel>::empty()
    }
}

impl ChzzkAdapter {
    /// A fresh connection attempt for one resolved session.
    pub fn new(channel_id: String, access_token: String) -> (a: ChzzkAdapter)
        ensures
            a@ == (ChzzkAdapterModel {
                phase: ChzzkPhase::Connecting,
                channel_id: channel_id@,
                access_token: access_token@,
            }),
    {
        ChzzkAdapter { phase: ChzzkPhase::Connecting, channel_id, access_token }
    }

    /// Reports the websocket connect outcome; on success hands back the Auth
    /// frame to send first.
    pub fn on_connect(&mut self, ok: bool) -> (frame: Option<String>)
        requires
            old(self)@.phase == ChzzkPhase::Connecting,
        ensures
            final(self)@ == (ChzzkAdapterModel {
                phase: if ok {
                    ChzzkPhase::Authenticating
                } else {
                    ChzzkPhase::Terminated
                },
                ..old(self)@
            }),
            ok ==> (frame matches Some(f) && f@ == auth_envelope(
                old(self)@.channel_id,
                old(self)@.access_token,
            )),
            !ok ==> frame is None,
    {
        if ok {
            self.phase = ChzzkPhase::Authenticating;
            let auth = Auth::new(self.access_token.clone());
            Some(auth.encode(self.channel_id.as_str()))
        } else {
            self.phase = ChzzkPhase::Terminated;
            None
        }
    }

    /// Reports whether the Auth frame went out; a send failure ends the
    /// connection before it ever streams.
    pub fn on_auth_sent(&mut self, ok: bool)
        requires
            old(self)@.phase == ChzzkPhase::Authenticating,
        ensures
            final(self)@ == (ChzzkAdapterModel {
                phase: if ok {
                    ChzzkPhase::Streaming
                } else {
                    ChzzkPhase::Terminated
                },
                ..old(self)@
            }),
    {
        self.phase = if ok {
            ChzzkPhase::Streaming
        } else {
            ChzzkPhase::Terminated
        };
    }

    /// Decodes one inbound frame per [`step_frame`]: zero or more messages
    /// while streaming, none after termination.
    pub fn on_frame(&mut self, frame: &str) -> (msgs: Vec<Message>)
        ensures
            final(self)@ == old(self)@,
            msgs.deep_view() == step_frame(old(self)@, frame@),
    {
        if self.phase == ChzzkPhase::Streaming {
            decode_frame(frame)
        } else {
            let empty: Vec<Message> = Vec::new();
            proof {
                assert(empty.deep_view() =~= Seq::<MessageModel>::empty());
            }
            empty
        }
    }

    /// The Ping and Pong frames owed every keepalive tick, in send order.
    pub fn keepalive_frames(&self) -> (r: (String, String))
        ensures
            r.0@ == ping_envelope(self@.channel_id),
            r.1@ == pong_envelope(self@.channel_id),
    {
        (encode_ping(self.channel_id.as_str()), encode_pong(self.channel_id.as_str()))
    }

    /// Reports a keepalive send outcome; either signal failing to go out is
    /// treated as connection loss.
    pub fn on_keepalive_sent(&mut self, ok: bool)
        ensures
            final(self)@ == (ChzzkAdapterModel {
                phase: if ok {
                    old(self)@.phase
                } else {
                    ChzzkPhase::Terminated
                },
                ..old(self)@
            }),
    {
        if !ok {
            self.phase = ChzzkPhase::Terminated;
        }
    }

    /// Caller-issued stop; idempotent, and indistinguishable from natural
    /// termination.
    pub fn cancel(&mut self)
        ensures
            final(self)@ == (ChzzkAdapterModel { phase: ChzzkPhase::Terminated, ..old(self)@ }),
    {
        self.phase = ChzzkPhase::Terminated;
    }

    pub fn is_terminated(&self) -> (r: bool)
        ensures
            r == (self@.phase == ChzzkPhase::Terminated),
    {
        self.phase == ChzzkPhase::Terminated
    }
}

/// The messages an adapter emits over a whole run of inbound frames, in
/// arrival order.  Frames never move a Chzzk adapter's state.
pub open spec fn run_frames(m: ChzzkAdapterModel, frames: Seq<Seq<char>>) -> Seq<MessageModel>
    decreases frames.len(),
{
    if frames.len() == 0 {
        Seq::<MessageModel>::empty()
    } else {
        step_frame(m, frames[0]) + run_frames(m, frames.drop_first())
    }
}

/// Feeding frames in two batches emits the same messages, in the same order,
/// as feeding them all at once.
pub proof fn lemma_run_frames_append(m: ChzzkAdapterModel, a: Seq<Seq<char>>, b: Seq<Seq<char>>)
    ensures
        run_frames(m, a + b) == run_frames(m, a) + run_frames(m, b),
    decreases a.len(),
{
    if a.len() == 0 {
        assert(a + b =~= b);
        assert(run_frames(m, a) + run_frames(m, b) =~= run_frames(m, b));
    } else {
        assert((a + b)[0] == a[0]);
        assert((a + b).drop_first() =~= a.drop_first() + b);
        lemma_run_frames_append(m, a.drop_first(), b);
        assert(step_frame(m, a[0]) + (run_frames(m, a.drop_first()) + run_frames(m, b))
            =~= (step_frame(m, a[0]) + run_frames(m, a.drop_first())) + run_frames(m, b));
    }
}

/// A frame that decodes to no messages — malformed envelope, body or event
/// list — contributes nothing to the emitted messages.
pub proof fn lemma_undecodable_frame_dropped(
    m: ChzzkAdapterModel,
    frames: Seq<Seq<char>>,
    bad: Seq<char>,
)
    requires
        decode_frame_spec(bad) == Seq::<MessageModel>::empty(),
    ensures
        run_frames(m, frames.push(bad)) == run_frames(m, frames),
{
    lemma_run_frames_append(m, frames, seq![bad]);
    assert(frames.push(bad) =~= frames + seq![bad]);
    assert(seq![bad][0] == bad);
    assert(seq![bad].drop_first() =~= Seq::<Seq<char>>::empty());
    assert(step_frame(m, bad) =~= Seq::<MessageModel>::empty());
    assert(run_frames(m, seq![bad]) =~= step_frame(m, bad) + run_frames(
        m,
        Seq::<Seq<char>>::empty(),
    ));
    assert(run_frames(m, seq![bad]) =~= Seq::<MessageModel>::empty());
    assert(run_frames(m, frames) + run_frames(m, seq![bad]) =~= run_frames(m, frames));
}

/// After termination — cancellation included — no frame yields a further
/// message.
pub proof fn lemma_terminated_yields_nothing(m: ChzzkAdapterModel, frames: Seq<Seq<char>>)
    requires
        m.phase == ChzzkPhase::Terminated,
    ensures
        run_frames(m, frames) == Seq::<MessageModel>::empty(),
    decreases frames.len(),
{
    if frames.len() > 0 {
        lemma_terminated_yields_nothing(m, frames.drop_first());
        assert(step_frame(m, frames[0]) + run_frames(m, frames.drop_first())
            =~= Seq::<MessageModel>::empty());
    }
}

} // verus!
