//! The voice bridge between a Discord call and the realtime AI service: the
//! stages of joining a channel, the session set-up message, the audio captured
//! from the call, the buffer of audio played back into it, and how each event
//! of the service is handled.

use vstd::prelude::*;
use std::collections::VecDeque;
use base64::Engine;
use crate::json::{Json, get_spec, str_spec, jstr};
use crate::text::{chars_of, is_prefix};
use crate::text::{contains_seq, decimal, push_decimal};

verus! {

/// The little-endian bytes of 16-bit samples, two per sample.
pub open spec fn le_bytes(pcm: Seq<i16>) -> Seq<u8> {
    Seq::new(2 * pcm.len(), |k: int| if k % 2 == 0 { low_byte(pcm[k / 2]) } else { high_byte(pcm[k / 2]) })
}

/// The low byte of a sample.
pub open spec fn low_byte(s: i16) -> u8 {
    ((s as u16) & 0xff) as u8
}

/// The high byte of a sample.
pub open spec fn high_byte(s: i16) -> u8 {
    ((s as u16) >> 8) as u8
}

/// The sample that two little-endian bytes encode.
pub open spec fn sample_of(lo: u8, hi: u8) -> i16 {
    ((lo as u16) | ((hi as u16) << 8)) as i16
}

/// Where the joining of a voice channel stands.
#[derive(PartialEq, Eq, Structural, Clone, Copy)]
pub enum JoinPhase {
    /// Asked to join; voice and key not yet checked.
    Requested,
    /// Looking for the voice manager of the client.
    FindingManager,
    /// Joining the channel (any stale connection was removed first).
    Joining,
    /// Joined; opening the socket to the realtime service.
    Connecting,
    /// Socket open; sending the session set-up.
    Configuring,
    /// The bridge is live.
    Live,
    /// The join failed.
    Failed,
}

/// What happened at the current stage of a join.
pub enum JoinEvent {
    /// The join starts, for a bot with or without voice and an API key.
    Start { voice_enabled: bool, has_key: bool },
    /// The voice manager was looked up.
    Manager { present: bool },
    /// The channel was joined.
    Joined,
    /// Joining failed with the detail.
    JoinFailed { detail: String },
    /// Joining took longer than the limit.
    JoinTimedOut,
    /// The socket request could not be built.
    RequestInvalid { error: String },
    /// The socket to the service is open.
    SocketOpened,
    /// Opening the socket failed.
    SocketFailed { error: String },
    /// The session set-up was sent.
    SessionSent,
    /// Sending the session set-up failed.
    SessionFailed { error: String },
}

/// What to do next in a join.
pub enum JoinAction {
    /// Look up the voice manager.
    FindManager,
    /// Remove any stale connection of the guild, then join the channel
    /// within 25 seconds.
    RemoveStaleThenJoin,
    /// Set up the call's audio and open the socket to the service.
    OpenSocket,
    /// Send the session set-up.
    ConfigureSession,
    /// Start the audio tasks and record the session.
    StartBridge,
    /// Give up: leave the channel (remove the connection) when `leave`, log
    /// the line as an error when there is one, and fail with the error.
    Fail { leave: bool, log: Option<String>, error: String },
    /// The event does not belong to this stage: nothing to do.
    Ignore,
}

/// Whether the action is the failure with these parts.
pub open spec fn is_fail(a: JoinAction, leave: bool, log: Option<Seq<char>>, error: Seq<char>) -> bool {
    a matches JoinAction::Fail { leave: l, log: g, error: e }
        && l == leave && e@ == error
        && match (g, log) {
            (Some(x), Some(y)) => x@ == y,
            (None, None) => true,
            _ => false,
        }
}

/// The next stage and action of a join: the checks, then the manager, then
/// the join (after removing a stale connection), the socket, the session
/// set-up, and the live bridge. A failed or timed-out join, a failed socket
/// and a failed set-up leave the channel; failures before the join, and a
/// socket request that cannot be built, do not.
pub open spec fn join_transition(phase: JoinPhase, event: JoinEvent, next: JoinPhase, action: JoinAction) -> bool {
    match (phase, event) {
        (JoinPhase::Requested, JoinEvent::Start { voice_enabled, has_key }) =>
            if !voice_enabled {
                next == JoinPhase::Failed && is_fail(action, false, Some("voice: disabled for this bot"@), "voice is disabled for this bot"@)
            } else if !has_key {
                next == JoinPhase::Failed && is_fail(action, false, Some("voice: xAI API key required"@), "xAI API key required for voice"@)
            } else {
                next == JoinPhase::FindingManager && action is FindManager
            },
        (JoinPhase::FindingManager, JoinEvent::Manager { present }) =>
            if present {
                next == JoinPhase::Joining && action is RemoveStaleThenJoin
            } else {
                next == JoinPhase::Failed && is_fail(action, false, Some("voice: songbird not initialized"@), "songbird not initialized"@)
            },
        (JoinPhase::Joining, JoinEvent::Joined) => next == JoinPhase::Connecting && action is OpenSocket,
        (JoinPhase::Joining, JoinEvent::JoinFailed { detail }) =>
            next == JoinPhase::Failed && is_fail(action, true, Some("voice join failed: "@ + detail@), "join failed: "@ + detail@),
        (JoinPhase::Joining, JoinEvent::JoinTimedOut) =>
            next == JoinPhase::Failed && is_fail(action, true,
                Some("voice: join timed out after 25s (no Discord voice connection)"@), "join timed out"@),
        (JoinPhase::Connecting, JoinEvent::RequestInvalid { error }) =>
            next == JoinPhase::Failed && is_fail(action, false, None, "bad ws request: "@ + error@),
        (JoinPhase::Connecting, JoinEvent::SocketOpened) => next == JoinPhase::Configuring && action is ConfigureSession,
        (JoinPhase::Connecting, JoinEvent::SocketFailed { error }) =>
            next == JoinPhase::Failed && is_fail(action, true, Some("voice: xAI realtime connect failed: "@ + error@),
                "xAI realtime connect failed: "@ + error@),
        (JoinPhase::Configuring, JoinEvent::SessionSent) => next == JoinPhase::Live && action is StartBridge,
        (JoinPhase::Configuring, JoinEvent::SessionFailed { error }) =>
            next == JoinPhase::Failed && is_fail(action, true, Some("voice: session.update failed: "@ + error@),
                "session.update failed: "@ + error@),
        _ => next == phase && action is Ignore,
    }
}

fn fail(leave: bool, log: Option<String>, error: String) -> (r: JoinAction)
    ensures
        r == (JoinAction::Fail { leave, log, error }),
{
    JoinAction::Fail { leave, log, error }
}

fn prefixed(prefix: &str, rest: &String) -> (r: String)
    ensures
        r@ == prefix@ + rest@,
{
    let mut s = String::from_str(prefix);
    s.append(rest.as_str());
    s
}

/// Decides `join_transition`: the next stage of a join and what to do.
pub fn join_step(phase: JoinPhase, event: &JoinEvent) -> (r: (JoinPhase, JoinAction))
    ensures
        join_transition(phase, *event, r.0, r.1),
{
    match (phase, event) {
        (JoinPhase::Requested, JoinEvent::Start { voice_enabled, has_key }) => {
            if !*voice_enabled {
                (JoinPhase::Failed, fail(false, Some(String::from_str("voice: disabled for this bot")),
                    String::from_str("voice is disabled for this bot")))
            } else if !*has_key {
                (JoinPhase::Failed, fail(false, Some(String::from_str("voice: xAI API key required")),
                    String::from_str("xAI API key required for voice")))
            } else {
                (JoinPhase::FindingManager, JoinAction::FindManager)
            }
        },
        (JoinPhase::FindingManager, JoinEvent::Manager { present }) => {
            if *present {
                (JoinPhase::Joining, JoinAction::RemoveStaleThenJoin)
            } else {
                (JoinPhase::Failed, fail(false, Some(String::from_str("voice: songbird not initialized")),
                    String::from_str("songbird not initialized")))
            }
        },
        (JoinPhase::Joining, JoinEvent::Joined) => (JoinPhase::Connecting, JoinAction::OpenSocket),
        (JoinPhase::Joining, JoinEvent::JoinFailed { detail }) =>
            (JoinPhase::Failed, fail(true, Some(prefixed("voice join failed: ", detail)), prefixed("join failed: ", detail))),
        (JoinPhase::Joining, JoinEvent::JoinTimedOut) =>
            (JoinPhase::Failed, fail(true, Some(String::from_str("voice: join timed out after 25s (no Discord voice connection)")),
                String::from_str("join timed out"))),
        (JoinPhase::Connecting, JoinEvent::RequestInvalid { error }) =>
            (JoinPhase::Failed, fail(false, None, prefixed("bad ws request: ", error))),
        (JoinPhase::Connecting, JoinEvent::SocketOpened) => (JoinPhase::Configuring, JoinAction::ConfigureSession),
        (JoinPhase::Connecting, JoinEvent::SocketFailed { error }) =>
            (JoinPhase::Failed, fail(true, Some(prefixed("voice: xAI realtime connect failed: ", error)),
                prefixed("xAI realtime connect failed: ", error))),
        (JoinPhase::Configuring, JoinEvent::SessionSent) => (JoinPhase::Live, JoinAction::StartBridge),
        (JoinPhase::Configuring, JoinEvent::SessionFailed { error }) =>
            (JoinPhase::Failed, fail(true, Some(prefixed("voice: session.update failed: ", error)),
                prefixed("session.update failed: ", error))),
        _ => (phase, JoinAction::Ignore),
    }
}

/// Once the join of the channel has been attempted, a failed or timed-out
/// join, a failed socket and a failed session set-up all leave the channel,
/// so that no half-open connection stays behind; a failure before the join
/// never touches the connection.
pub proof fn law_join_failures_clean_up(phase: JoinPhase, event: JoinEvent, next: JoinPhase, action: JoinAction)
    requires
        join_transition(phase, event, next, action),
        next == JoinPhase::Failed,
        phase != JoinPhase::Failed,
    ensures
        (phase == JoinPhase::Requested || phase == JoinPhase::FindingManager) ==> (action matches JoinAction::Fail { leave, .. } && !leave),
        (phase == JoinPhase::Joining || phase == JoinPhase::Configuring
            || (phase == JoinPhase::Connecting && event is SocketFailed)) ==> (action matches JoinAction::Fail { leave, .. } && leave),
{
}

/// A join goes live only from a sent session set-up, and only the manager
/// stage, once the manager is found, asks to join, always removing a stale
/// connection first.
pub proof fn law_join_order(phase: JoinPhase, event: JoinEvent, next: JoinPhase, action: JoinAction)
    requires
        join_transition(phase, event, next, action),
    ensures
        next == JoinPhase::Live && phase != JoinPhase::Live ==> phase == JoinPhase::Configuring && event is SessionSent && action is StartBridge,
        action is RemoveStaleThenJoin ==> phase == JoinPhase::FindingManager && (event matches JoinEvent::Manager { present } && present),
{
}

/// A sample's two bytes encode the sample again.
pub proof fn law_sample_roundtrip(s: i16)
    ensures
        sample_of(low_byte(s), high_byte(s)) == s,
{
    assert(((((s as u16) & 0xff) as u8) as u16 | (((((s as u16) >> 8) as u8) as u16) << 8)) as i16 == s) by (bit_vector);
}

/// The bytes of audio captured from the call, as the service takes them.
pub fn pcm_to_le_bytes(pcm: &Vec<i16>) -> (r: Vec<u8>)
    requires
        pcm@.len() <= usize::MAX / 2,
    ensures
        r@ == le_bytes(pcm@),
{
    let mut r: Vec<u8> = Vec::new();
    let mut i: usize = 0;
    while i < pcm.len()
        invariant
            i <= pcm@.len(),
            pcm@.len() <= usize::MAX / 2,
            r@ == le_bytes(pcm@.take(i as int)),
        decreases pcm@.len() - i,
    {
        let s = pcm[i];
        let u = s as u16;
        r.push((u & 0xff) as u8);
        r.push((u >> 8) as u8);
        assert(r@ =~= le_bytes(pcm@.take(i + 1)));
        i = i + 1;
    }
    assert(pcm@.take(pcm@.len() as int) == pcm@);
    r
}

/// What to do with one chunk of captured audio.
pub enum Capture {
    /// An empty chunk: nothing.
    Skip,
    /// Send the bytes; `first` when they are the first audio heard in the
    /// call, which is logged.
    Send { bytes: Vec<u8>, first: bool },
}

/// Handles one chunk of audio captured from a speaker; `heard` records
/// whether any audio was captured before.
pub fn capture_chunk(pcm: &Vec<i16>, heard: &mut bool) -> (r: Capture)
    requires
        pcm@.len() <= usize::MAX / 2,
    ensures
        pcm@.len() == 0 ==> r is Skip && *final(heard) == *old(heard),
        pcm@.len() > 0 ==> (r matches Capture::Send { bytes, first } && bytes@ == le_bytes(pcm@)
            && first == !*old(heard) && *final(heard)),
{
    if pcm.len() == 0 {
        return Capture::Skip;
    }
    let first = !*heard;
    *heard = true;
    Capture::Send { bytes: pcm_to_le_bytes(pcm), first }
}

/// The character of a six-bit value in the standard base64 alphabet
/// (`A`-`Z`, `a`-`z`, `0`-`9`, `+`, `/`).
pub open spec fn b64_digit(v: int) -> char {
    if v < 26 {
        (65 + v) as char
    } else if v < 52 {
        (97 + v - 26) as char
    } else if v < 62 {
        (48 + v - 52) as char
    } else if v == 62 {
        '+'
    } else {
        '/'
    }
}

/// The standard padded base64 encoding of the bytes: each group of three
/// bytes becomes four characters of six bits each, most significant first;
/// a last group of one or two bytes is filled with zero bits and padded
/// with `=` to four characters.
pub open spec fn base64_standard(bytes: Seq<u8>) -> Seq<char>
    decreases bytes.len(),
{
    if bytes.len() == 0 {
        Seq::empty()
    } else if bytes.len() == 1 {
        let b0 = bytes[0] as int;
        seq![b64_digit(b0 / 4), b64_digit((b0 % 4) * 16), '=', '=']
    } else if bytes.len() == 2 {
        let b0 = bytes[0] as int;
        let b1 = bytes[1] as int;
        seq![b64_digit(b0 / 4), b64_digit((b0 % 4) * 16 + b1 / 16), b64_digit((b1 % 16) * 4), '=']
    } else {
        let b0 = bytes[0] as int;
        let b1 = bytes[1] as int;
        let b2 = bytes[2] as int;
        seq![b64_digit(b0 / 4), b64_digit((b0 % 4) * 16 + b1 / 16), b64_digit((b1 % 16) * 4 + b2 / 64), b64_digit(b2 % 64)]
            + base64_standard(bytes.skip(3))
    }
}

/// Names what the standard base64 decoding makes of a text: the bytes, or
/// nothing when the text is not valid base64.
pub uninterp spec fn base64_standard_decode(text: Seq<char>) -> Option<Seq<u8>>;

/// `Engine::encode` of base64 with the `STANDARD` engine (standard alphabet,
/// with padding): the encoding `base64_standard`, four characters for every
/// three bytes or part of three.
#[verifier::external_body]
fn encode_base64(bytes: &Vec<u8>) -> (r: String)
    requires
        bytes@.len() <= usize::MAX / 2,
    ensures
        r@ == base64_standard(bytes@),
        r@.len() == 4 * ((bytes@.len() + 2) / 3),
{
    base64::engine::general_purpose::STANDARD.encode(bytes)
}

/// `Engine::decode` of base64 with the `STANDARD` engine; a decoding error
/// becomes nothing.
#[verifier::external_body]
fn decode_base64(text: &str) -> (r: Option<Vec<u8>>)
    ensures
        match r {
            Some(b) => base64_standard_decode(text@) == Some(b@),
            None => base64_standard_decode(text@) is None,
        },
{
    match base64::engine::general_purpose::STANDARD.decode(text) {
        Ok(b) => Some(b),
        Err(_) => None,
    }
}

/// The message that hands captured audio to the service: an
/// `input_audio_buffer.append` event with the audio in base64.
pub fn audio_append_message(pcm: &Vec<u8>) -> (r: Json)
    requires
        pcm@.len() <= usize::MAX / 2,
    ensures
        r matches Json::Object(ps) && ps@.len() == 2
            && ps@[0].0@ == "type"@ && (ps@[0].1 matches Json::Str(t) && t@ == "input_audio_buffer.append"@)
            && ps@[1].0@ == "audio"@ && (ps@[1].1 matches Json::Str(a) && a@ == base64_standard(pcm@)),
{
    let mut ps: Vec<(String, Json)> = Vec::new();
    ps.push((String::from_str("type"), jstr("input_audio_buffer.append")));
    ps.push((String::from_str("audio"), Json::Str(encode_base64(pcm))));
    Json::Object(ps)
}

/// What the audio sender logs after sending frame number `n`: the first
/// frame, then every 250th.
pub open spec fn sent_frame_log(n: u64) -> Option<Seq<char>> {
    if n == 1 {
        Some("voice: streaming first audio to xAI"@)
    } else if n % 250 == 0 {
        Some("voice: sent "@ + decimal(n as nat) + " audio frames to xAI"@)
    } else {
        None
    }
}

/// Decides `sent_frame_log`.
pub fn frame_log(n: u64) -> (r: Option<String>)
    ensures
        match r {
            Some(s) => sent_frame_log(n) == Some(s@),
            None => sent_frame_log(n) is None,
        },
{
    if n == 1 {
        Some(String::from_str("voice: streaming first audio to xAI"))
    } else if n % 250 == 0 {
        let mut s = String::from_str("voice: sent ");
        push_decimal(&mut s, n);
        s.append(" audio frames to xAI");
        Some(s)
    } else {
        None
    }
}

/// A JSON number with the given text.
fn jnum(text: &str) -> (r: Json)
    ensures
        r matches Json::Number(t) && t@ == text@,
{
    Json::Number(String::from_str(text))
}

/// A JSON object with the given members.
fn jobj(members: Vec<(String, Json)>) -> (r: Json)
    ensures
        r == Json::Object(members),
{
    Json::Object(members)
}

fn member(key: &str, value: Json) -> (r: (String, Json))
    ensures
        r.0@ == key@,
        r.1 == value,
{
    (String::from_str(key), value)
}

/// Whether `j` is an object whose members are, in order, the keys given.
pub open spec fn keys_are(j: Json, keys: Seq<Seq<char>>) -> bool {
    j matches Json::Object(ps) && ps@.len() == keys.len()
        && forall|i: int| 0 <= i < keys.len() ==> (#[trigger] ps@[i]).0@ == keys[i]
}

/// Member `i` of an object.
pub open spec fn at(j: Json, i: int) -> Json {
    match j {
        Json::Object(ps) => ps@[i].1,
        _ => Json::Null,
    }
}

/// Whether `j` is the string with the text.
pub open spec fn text_is(j: Json, t: Seq<char>) -> bool {
    j matches Json::Str(s) && s@ == t
}

/// Whether `j` is the number with the text.
pub open spec fn number_is(j: Json, t: Seq<char>) -> bool {
    j matches Json::Number(s) && s@ == t
}

/// Whether a direction of the audio settings is 48 kHz PCM.
pub open spec fn pcm_format(j: Json) -> bool {
    &&& keys_are(j, seq!["format"@])
    &&& keys_are(at(j, 0), seq!["type"@, "rate"@])
    &&& text_is(at(at(j, 0), 0), "audio/pcm"@)
    &&& number_is(at(at(j, 0), 1), "48000"@)
}

/// Whether `j` is the `session.update` event that sets up a call: the
/// voice, the persona as instructions, server-side turn detection, 48 kHz
/// PCM both ways, and no tools.
pub open spec fn session_update_json(j: Json, voice: Seq<char>, persona: Seq<char>) -> bool {
    &&& keys_are(j, seq!["type"@, "session"@])
    &&& text_is(at(j, 0), "session.update"@)
    &&& {
        let session = at(j, 1);
        &&& keys_are(session, seq!["voice"@, "instructions"@, "turn_detection"@, "audio"@, "tools"@])
        &&& text_is(at(session, 0), voice)
        &&& text_is(at(session, 1), persona)
        &&& {
            let td = at(session, 2);
            &&& keys_are(td, seq!["type"@, "threshold"@, "silence_duration_ms"@, "prefix_padding_ms"@])
            &&& text_is(at(td, 0), "server_vad"@)
            &&& number_is(at(td, 1), "0.85"@)
            &&& number_is(at(td, 2), "500"@)
            &&& number_is(at(td, 3), "333"@)
        }
        &&& keys_are(at(session, 3), seq!["input"@, "output"@])
        &&& pcm_format(at(at(session, 3), 0))
        &&& pcm_format(at(at(session, 3), 1))
        &&& at(session, 4) matches Json::Array(tools) && tools@.len() == 0
    }
}

fn pcm_direction() -> (r: Json)
    ensures
        pcm_format(r),
{
    let f = jobj(vec![member("type", jstr("audio/pcm")), member("rate", jnum("48000"))]);
    let r = jobj(vec![member("format", f)]);
    proof {
        assert(keys_are(f, seq!["type"@, "rate"@]));
        assert(keys_are(r, seq!["format"@]));
    }
    r
}

/// The `session.update` event that sets up a call with the voice and the
/// persona.
pub fn session_update(voice: &String, persona: &String) -> (r: Json)
    ensures
        session_update_json(r, voice@, persona@),
{
    let td = jobj(vec![
        member("type", jstr("server_vad")),
        member("threshold", jnum("0.85")),
        member("silence_duration_ms", jnum("500")),
        member("prefix_padding_ms", jnum("333")),
    ]);
    let audio = jobj(vec![member("input", pcm_direction()), member("output", pcm_direction())]);
    let session = jobj(vec![
        member("voice", Json::Str(voice.clone())),
        member("instructions", Json::Str(persona.clone())),
        member("turn_detection", td),
        member("audio", audio),
        member("tools", Json::Array(Vec::new())),
    ]);
    let r = jobj(vec![member("type", jstr("session.update")), member("session", session)]);
    proof {
        assert(keys_are(td, seq!["type"@, "threshold"@, "silence_duration_ms"@, "prefix_padding_ms"@]));
        assert(keys_are(audio, seq!["input"@, "output"@]));
        assert(keys_are(session, seq!["voice"@, "instructions"@, "turn_detection"@, "audio"@, "tools"@]));
        assert(keys_are(r, seq!["type"@, "session"@]));
    }
    r
}

/// Audio received from the service, waiting to be played into the call.
pub struct PlaybackBuffer {
    bytes: VecDeque<u8>,
}

/// What the call's audio source hands out when asked for bytes.
pub enum Chunk {
    /// The call is over: no more audio.
    End,
    /// Nothing is buffered: this many bytes of silence keep the track alive.
    Silence { len: usize },
    /// Buffered audio, oldest first.
    Audio { bytes: Vec<u8> },
}

impl View for PlaybackBuffer {
    type V = Seq<u8>;

    closed spec fn view(&self) -> Seq<u8> {
        self.bytes@
    }
}

impl PlaybackBuffer {
    /// An empty buffer.
    pub fn new() -> (r: Self)
        ensures
            r@ == Seq::<u8>::empty(),
    {
        PlaybackBuffer { bytes: VecDeque::new() }
    }

    /// Number of buffered bytes.
    pub fn len(&self) -> (r: usize)
        ensures
            r == self@.len(),
    {
        self.bytes.len()
    }

    /// Appends received audio after what is buffered.
    pub fn extend(&mut self, data: &Vec<u8>)
        ensures
            final(self)@ == old(self)@ + data@,
    {
        let mut i: usize = 0;
        while i < data.len()
            invariant
                i <= data@.len(),
                self@ == old(self)@ + data@.take(i as int),
            decreases data@.len() - i,
        {
            self.bytes.push_back(data[i]);
            assert(old(self)@ + data@.take(i + 1) =~= (old(self)@ + data@.take(i as int)).push(data@[i as int]));
            i = i + 1;
        }
        assert(data@.take(data@.len() as int) == data@);
    }

    /// Hands out up to `want` bytes for playback: nothing once the call is
    /// over; silence of the full length while nothing is buffered; else the
    /// oldest buffered bytes, which leave the buffer.
    pub fn read(&mut self, done: bool, want: usize) -> (r: Chunk)
        ensures
            done ==> r is End && final(self)@ == old(self)@,
            !done && old(self)@.len() == 0 ==> (r matches Chunk::Silence { len } && len == want) && final(self)@ == old(self)@,
            !done && old(self)@.len() > 0 ==> {
                let n = if want < old(self)@.len() { want as int } else { old(self)@.len() as int };
                &&& r matches Chunk::Audio { bytes } && bytes@ == old(self)@.take(n)
                &&& final(self)@ == old(self)@.skip(n)
            },
    {
        if done {
            return Chunk::End;
        }
        if self.bytes.len() == 0 {
            return Chunk::Silence { len: want };
        }
        let n = if want < self.bytes.len() { want } else { self.bytes.len() };
        let ghost start = self@;
        let mut out: Vec<u8> = Vec::new();
        let mut i: usize = 0;
        while i < n
            invariant
                n <= start.len(),
                i <= n,
                out@ == start.take(i as int),
                self@ == start.skip(i as int),
            decreases n - i,
        {
            let b = self.bytes.pop_front();
            match b {
                Some(x) => {
                    out.push(x);
                },
                None => {},
            }
            assert(start.take(i + 1) =~= start.take(i as int).push(start[i as int]));
            assert(start.skip(i + 1) =~= start.skip(i as int).subrange(1, start.skip(i as int).len() as int));
            i = i + 1;
        }
        Chunk::Audio { bytes: out }
    }
}

/// What the bridge reports of an event of the service.
pub enum EventReport {
    /// Nothing to report.
    Quiet,
    /// An information line for the bot's log.
    Info { text: String },
    /// The service reported an error; the event itself is logged.
    ServiceError,
}

/// Whether the event type announces a chunk of spoken audio.
pub open spec fn is_audio_event(ty: Seq<char>) -> bool {
    ty == "response.output_audio.delta"@ || ty == "response.audio.delta"@
}

/// The audio text of an event: its `audio` member when it has one, else its
/// `delta` member, when that is a string.
pub open spec fn event_audio(event: Json) -> Option<Seq<char>> {
    if get_spec(event, "audio"@) is Some {
        str_spec(get_spec(event, "audio"@))
    } else {
        str_spec(get_spec(event, "delta"@))
    }
}

/// The type of an event: its `type` member when that is a string, else the
/// empty text.
pub open spec fn event_type(event: Json) -> Seq<char> {
    match str_spec(get_spec(event, "type"@)) {
        Some(t) => t,
        None => Seq::empty(),
    }
}

/// Whether an event of this type is logged as unexpected: any type except
/// the empty one, the known ones, audio output events, input buffer events
/// and text deltas.
pub open spec fn is_unexpected(ty: Seq<char>) -> bool {
    &&& ty.len() > 0
    &&& !is_audio_event(ty)
    &&& ty != "session.created"@ && ty != "session.updated"@
    &&& ty != "response.done"@ && ty != "response.completed"@
    &&& ty != "error"@
    &&& !is_prefix("response.output_audio."@, ty)
    &&& !is_prefix("input_audio_buffer."@, ty)
    &&& ty != "response.output_text.delta"@
}

/// Handles one event of the service. Audio events append their decoded
/// audio to the playback buffer and count audio chunks of the current
/// response (the first is logged); the end of a response resets the count;
/// session events and unexpected events are logged; error events are
/// reported.
pub fn handle_event(event: &Json, got_audio: &mut u64, playback: &mut PlaybackBuffer) -> (r: EventReport)
    ensures
        ({
            let ty = event_type(*event);
            if is_audio_event(ty) {
                match event_audio(*event) {
                    Some(a) => match base64_standard_decode(a) {
                        Some(bytes) => {
                            &&& final(playback)@ == old(playback)@ + bytes
                            &&& *final(got_audio) == (if *old(got_audio) == u64::MAX { 0 } else { *old(got_audio) + 1 })
                            &&& if *final(got_audio) == 1 {
                                r matches EventReport::Info { text } && text@ == "voice: receiving audio from xAI (speaking)"@
                            } else {
                                r is Quiet
                            }
                        },
                        None => final(playback)@ == old(playback)@ && *final(got_audio) == *old(got_audio) && r is Quiet,
                    },
                    None => final(playback)@ == old(playback)@ && *final(got_audio) == *old(got_audio) && r is Quiet,
                }
            } else {
                &&& final(playback)@ == old(playback)@
                &&& *final(got_audio) == if ty == "response.done"@ || ty == "response.completed"@ { 0 } else { *old(got_audio) }
                &&& if ty == "session.created"@ || ty == "session.updated"@ {
                    r matches EventReport::Info { text } && text@ == "voice: "@ + ty
                } else if ty == "error"@ {
                    r is ServiceError
                } else if is_unexpected(ty) {
                    r matches EventReport::Info { text } && text@ == "voice: event "@ + ty
                } else {
                    r is Quiet
                }
            }
        }),
{
    proof {
        reveal_strlit("response.output_audio.delta");
        reveal_strlit("response.audio.delta");
        reveal_strlit("session.created");
        reveal_strlit("session.updated");
        reveal_strlit("response.done");
        reveal_strlit("response.completed");
        reveal_strlit("error");
        reveal_strlit("response.output_audio.");
        reveal_strlit("input_audio_buffer.");
        reveal_strlit("response.output_text.delta");
    }
    let ty: String = match event.get("type") {
        Some(t) => match t.as_str() {
            Some(s) => s.clone(),
            None => String::new(),
        },
        None => String::new(),
    };
    assert(ty@ == event_type(*event));
    if ty == String::from_str("response.output_audio.delta") || ty == String::from_str("response.audio.delta") {
        let audio = match event.get("audio") {
            Some(a) => a.as_str(),
            None => match event.get("delta") {
                Some(d) => d.as_str(),
                None => None,
            },
        };
        match audio {
            Some(a) => {
                match decode_base64(a.as_str()) {
                    Some(bytes) => {
                        *got_audio = got_audio.wrapping_add(1);
                        playback.extend(&bytes);
                        if *got_audio == 1 {
                            return EventReport::Info { text: String::from_str("voice: receiving audio from xAI (speaking)") };
                        }
                        return EventReport::Quiet;
                    },
                    None => {
                        return EventReport::Quiet;
                    },
                }
            },
            None => {
                return EventReport::Quiet;
            },
        }
    }
    if ty == String::from_str("session.created") || ty == String::from_str("session.updated") {
        let mut text = String::from_str("voice: ");
        text.append(ty.as_str());
        return EventReport::Info { text };
    }
    if ty == String::from_str("response.done") || ty == String::from_str("response.completed") {
        *got_audio = 0;
        return EventReport::Quiet;
    }
    if ty == String::from_str("error") {
        return EventReport::ServiceError;
    }
    if ty.as_str().is_empty() {
        return EventReport::Quiet;
    }
    let cs = chars_of(ty.as_str());
    if starts_with(&cs, "response.output_audio.") || starts_with(&cs, "input_audio_buffer.")
        || ty == String::from_str("response.output_text.delta") {
        return EventReport::Quiet;
    }
    let mut text = String::from_str("voice: event ");
    text.append(ty.as_str());
    EventReport::Info { text }
}

fn starts_with(cs: &Vec<char>, prefix: &str) -> (r: bool)
    ensures
        r == is_prefix(prefix@, cs@),
{
    let p = chars_of(prefix);
    if p.len() > cs.len() {
        return false;
    }
    let mut i: usize = 0;
    while i < p.len()
        invariant
            p@ == prefix@,
            p@.len() <= cs@.len(),
            i <= p@.len(),
            forall|k: int| 0 <= k < i ==> cs@[k] == p@[k],
        decreases p@.len() - i,
    {
        if cs[i] != p[i] {
            return false;
        }
        i = i + 1;
    }
    assert(cs@.take(p@.len() as int) =~= p@);
    true
}

/// Who is in a voice channel: a user and the channel they are in, if any.
pub struct VoiceState {
    pub user_id: u64,
    pub channel_id: Option<u64>,
}

/// Whether the guild member list marks the user a bot: `Some` for a known
/// member (the first entry with the id), `None` for an unknown user.
pub open spec fn member_is_bot(members: Seq<(u64, bool)>, user: u64) -> Option<bool> {
    if exists|i: int| 0 <= i < members.len() && (#[trigger] members[i]).0 == user {
        Some(members[choose|i: int| 0 <= i < members.len() && (#[trigger] members[i]).0 == user
            && forall|k: int| 0 <= k < i ==> (#[trigger] members[k]).0 != user].1)
    } else {
        None
    }
}

/// Number of voice states in the channel whose user is a known member and
/// not a bot.
pub open spec fn humans_in(states: Seq<VoiceState>, members: Seq<(u64, bool)>, channel: u64) -> nat
    decreases states.len(),
{
    if states.len() == 0 {
        0
    } else {
        let s = states.last();
        humans_in(states.drop_last(), members, channel)
            + if s.channel_id == Some(channel) && member_is_bot(members, s.user_id) == Some(false) { 1nat } else { 0nat }
    }
}

proof fn lemma_first_member(members: Seq<(u64, bool)>, user: u64, i: int)
    requires
        0 <= i < members.len(),
        members[i].0 == user,
        forall|k: int| 0 <= k < i ==> (#[trigger] members[k]).0 != user,
    ensures
        member_is_bot(members, user) == Some(members[i].1),
{
    let q = choose|q: int| 0 <= q < members.len() && (#[trigger] members[q]).0 == user
        && forall|k: int| 0 <= k < q ==> (#[trigger] members[k]).0 != user;
    assert(0 <= i < members.len() && members[i].0 == user && forall|k: int| 0 <= k < i ==> (#[trigger] members[k]).0 != user);
    if q < i {
        assert(members[q].0 != user);
    } else if i < q {
        assert(members[i].0 != user);
    }
}

fn is_bot_member(members: &Vec<(u64, bool)>, user: u64) -> (r: Option<bool>)
    ensures
        r == member_is_bot(members@, user),
{
    let mut i: usize = 0;
    while i < members.len()
        invariant
            i <= members@.len(),
            forall|k: int| 0 <= k < i ==> (#[trigger] members@[k]).0 != user,
        decreases members@.len() - i,
    {
        if members[i].0 == user {
            proof {
                lemma_first_member(members@, user, i as int);
            }
            return Some(members[i].1);
        }
        i = i + 1;
    }
    None
}

/// Counts the members of the guild who are not bots and are in the voice
/// channel.
#[verifier::spinoff_prover]
pub fn non_bot_members_in_channel(states: &Vec<VoiceState>, members: &Vec<(u64, bool)>, channel_id: u64) -> (r: usize)
    ensures
        r == humans_in(states@, members@, channel_id),
{
    let mut count: usize = 0;
    let mut i: usize = 0;
    while i < states.len()
        invariant
            i <= states@.len(),
            count == humans_in(states@.take(i as int), members@, channel_id),
            count <= i,
        decreases states@.len() - i,
    {
        assert(states@.take(i + 1).drop_last() == states@.take(i as int));
        assert(states@.take(i + 1).last() == states@[i as int]);
        let s = &states[i];
        let counts = match s.channel_id {
            Some(c) => c == channel_id && is_bot_member(members, s.user_id) == Some(false),
            None => false,
        };
        if counts {
            count = count + 1;
        }
        i = i + 1;
    }
    assert(states@.take(states@.len() as int) == states@);
    count
}

/// The member with the key of an object that may be missing.
pub open spec fn member_of(j: Option<Json>, key: Seq<char>) -> Option<Json> {
    match j {
        Some(v) => get_spec(v, key),
        None => None,
    }
}

proof fn lemma_get_member(j: Json, keys: Seq<Seq<char>>, k: int)
    requires
        keys_are(j, keys),
        0 <= k < keys.len(),
        forall|i: int| 0 <= i < k ==> keys[i] != keys[k],
    ensures
        get_spec(j, keys[k]) == Some(at(j, k)),
{
    if let Json::Object(ps) = j {
        let key = keys[k];
        assert(ps@[k].0@ == key);
        assert(forall|t: int| 0 <= t < k ==> (#[trigger] ps@[t]).0@ != key) by {
            assert forall|t: int| 0 <= t < k implies (#[trigger] ps@[t]).0@ != key by {
                assert(ps@[t].0@ == keys[t]);
            }
        }
        let q = choose|q: int| 0 <= q < ps@.len() && (#[trigger] ps@[q]).0@ == key
            && forall|t: int| 0 <= t < q ==> (#[trigger] ps@[t]).0@ != key;
        if q < k {
            assert(ps@[q].0@ == keys[q]);
        } else if q > k {
            assert(ps@[k].0@ != key);
        }
    }
}

/// The session set-up speaks with the given voice and the persona as its
/// instructions, and declares the audio sent to the service and the audio
/// it sends back both as PCM at 48000 Hz, the rate of the audio captured
/// from and played into the call: `session.audio.input.format` and
/// `session.audio.output.format` both have the type `audio/pcm` and the
/// rate 48000.
pub proof fn law_session_rates_match_call(j: Json, voice: Seq<char>, persona: Seq<char>)
    requires
        session_update_json(j, voice, persona),
    ensures
        ({
            let audio = member_of(member_of(Some(j), "session"@), "audio"@);
            let fin = member_of(member_of(audio, "input"@), "format"@);
            let fout = member_of(member_of(audio, "output"@), "format"@);
            &&& member_of(fin, "rate"@) matches Some(Json::Number(r)) && r@ == "48000"@
            &&& member_of(fout, "rate"@) matches Some(Json::Number(r)) && r@ == "48000"@
            &&& member_of(fin, "type"@) matches Some(Json::Str(t)) && t@ == "audio/pcm"@
            &&& member_of(fout, "type"@) matches Some(Json::Str(t)) && t@ == "audio/pcm"@
            &&& member_of(member_of(Some(j), "session"@), "voice"@) matches Some(Json::Str(v)) && v@ == voice
            &&& member_of(member_of(Some(j), "session"@), "instructions"@) matches Some(Json::Str(p)) && p@ == persona
        }),
{
    reveal_strlit("type");
    reveal_strlit("session");
    reveal_strlit("voice");
    reveal_strlit("instructions");
    reveal_strlit("turn_detection");
    reveal_strlit("audio");
    reveal_strlit("input");
    reveal_strlit("output");
    reveal_strlit("format");
    reveal_strlit("rate");
    assert("type"@.len() != "session"@.len());
    assert("voice"@[0] != "audio"@[0]);
    assert("instructions"@.len() != "audio"@.len());
    assert("instructions"@.len() != "voice"@.len());
    assert("turn_detection"@.len() != "audio"@.len());
    assert("input"@.len() != "output"@.len());
    assert("type"@[0] != "rate"@[0]);
    let top = seq!["type"@, "session"@];
    assert(top[0] != top[1]);
    lemma_get_member(j, top, 1);
    let session = at(j, 1);
    let skeys = seq!["voice"@, "instructions"@, "turn_detection"@, "audio"@, "tools"@];
    assert(skeys[0] != skeys[3] && skeys[1] != skeys[3] && skeys[2] != skeys[3]);
    lemma_get_member(session, skeys, 3);
    lemma_get_member(session, skeys, 0);
    assert(skeys[0] != skeys[1]);
    lemma_get_member(session, skeys, 1);
    let audio = at(session, 3);
    let akeys = seq!["input"@, "output"@];
    assert(akeys[0] != akeys[1]);
    lemma_get_member(audio, akeys, 0);
    lemma_get_member(audio, akeys, 1);
    let fkeys = seq!["format"@];
    let fkeys2 = seq!["type"@, "rate"@];
    assert(fkeys2[0] != fkeys2[1]);
    lemma_get_member(at(audio, 0), fkeys, 0);
    lemma_get_member(at(audio, 1), fkeys, 0);
    lemma_get_member(at(at(audio, 0), 0), fkeys2, 0);
    lemma_get_member(at(at(audio, 0), 0), fkeys2, 1);
    lemma_get_member(at(at(audio, 1), 0), fkeys2, 0);
    lemma_get_member(at(at(audio, 1), 0), fkeys2, 1);
}

} // verus!
