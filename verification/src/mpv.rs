//! The MPV JSON-IPC protocol: the properties the client observes, how a
//! message line decodes, and the state machine that turns property changes
//! and playback events into the events the player reacts to.
//!
//! The socket itself (connecting, reading lines, writing commands) is outside
//! work; each line, once read as JSON, is handed to [`decode_ipc`] and then to
//! [`MpvTracker::handle_message`].

use vstd::prelude::*;
use crate::events::{
    AudioStreamParams, ParamsView, PlaybackState, TrackMetadata, TrackView, opt_view,
};
use crate::json::{JsonNumber, JsonValue, json_get, number_as_u32, number_to_u32};
use crate::events::display_name_of;
use crate::text::{
    chars_of, contains_exec, contains_seq, find_first, is_ws, lemma_find_from, occurs_at,
    split_once, split_once_exec, str_to_uppercase, string_from_chars, to_string, trim, trim_end,
    trim_start, trim_vec, uppercase,
};

verus! {

// ---------------------------------------------------------------------------
// Observed properties
// ---------------------------------------------------------------------------

/// Observer id of `pause`.
pub const OBS_PAUSE: u64 = 1;
/// Observer id of `idle-active`.
pub const OBS_IDLE: u64 = 2;
/// Observer id of `audio-params`.
pub const OBS_AUDIO_PARAMS: u64 = 3;
/// Observer id of `media-title`.
pub const OBS_MEDIA_TITLE: u64 = 4;
/// Observer id of `icy-title`.
pub const OBS_ICY_TITLE: u64 = 5;
/// Observer id of `audio-bitrate`.
pub const OBS_AUDIO_BITRATE: u64 = 6;
/// Observer id of `audio-codec-name`.
pub const OBS_AUDIO_CODEC: u64 = 7;
/// Observer id of `volume`.
pub const OBS_VOLUME: u64 = 8;
/// Observer id of `stream-record`.
pub const OBS_STREAM_RECORD: u64 = 9;

/// The properties the client observes, with their observer ids, in the order
/// they are registered.
pub open spec fn observed() -> Seq<(u64, Seq<char>)> {
    seq![
        (OBS_PAUSE, "pause"@),
        (OBS_IDLE, "idle-active"@),
        (OBS_AUDIO_PARAMS, "audio-params"@),
        (OBS_MEDIA_TITLE, "media-title"@),
        (OBS_ICY_TITLE, "icy-title"@),
        (OBS_AUDIO_BITRATE, "audio-bitrate"@),
        (OBS_AUDIO_CODEC, "audio-codec-name"@),
        (OBS_VOLUME, "volume"@),
        (OBS_STREAM_RECORD, "stream-record"@),
    ]
}

/// The properties the client observes, with their observer ids, in the order
/// they are registered on connection.
pub fn observed_properties() -> (r: Vec<(u64, String)>)
    ensures
        r@.len() == observed().len(),
        forall|i: int|
            0 <= i < r@.len() ==> (#[trigger] r@[i]).0 == observed()[i].0 && r@[i].1@
                == observed()[i].1,
{
    let mut r: Vec<(u64, String)> = Vec::new();
    r.push((OBS_PAUSE, to_string("pause")));
    r.push((OBS_IDLE, to_string("idle-active")));
    r.push((OBS_AUDIO_PARAMS, to_string("audio-params")));
    r.push((OBS_MEDIA_TITLE, to_string("media-title")));
    r.push((OBS_ICY_TITLE, to_string("icy-title")));
    r.push((OBS_AUDIO_BITRATE, to_string("audio-bitrate")));
    r.push((OBS_AUDIO_CODEC, to_string("audio-codec-name")));
    r.push((OBS_VOLUME, to_string("volume")));
    r.push((OBS_STREAM_RECORD, to_string("stream-record")));
    r
}

// ---------------------------------------------------------------------------
// Artist and title
// ---------------------------------------------------------------------------

/// The two sides of `r` around the first `sep`, trimmed, when both are non-empty.
pub open spec fn split_pair(r: Seq<char>, sep: Seq<char>) -> Option<(Seq<char>, Seq<char>)> {
    match split_once(r, sep) {
        Some((a, b)) => if trim(a).len() > 0 && trim(b).len() > 0 {
            Some((trim(a), trim(b)))
        } else {
            None
        },
        None => None,
    }
}

/// The artist and title read from a stream title: `Artist - Title`, else
/// `Artist / Title`, else the whole (trimmed) text as the title; nothing for a blank text.
pub open spec fn artist_title(raw: Seq<char>) -> (Option<Seq<char>>, Option<Seq<char>>) {
    let r = trim(raw);
    if r.len() == 0 {
        (None, None)
    } else {
        match split_pair(r, " - "@) {
            Some((a, t)) => (Some(a), Some(t)),
            None => match split_pair(r, " / "@) {
                Some((a, t)) => (Some(a), Some(t)),
                None => (None, Some(r)),
            },
        }
    }
}

/// The two sides of `r` around the first `sep`, trimmed, when both are non-empty.
fn split_pair_exec(r: &[char], sep: &str) -> (o: Option<(Vec<char>, Vec<char>)>)
    ensures
        match split_pair(r@, sep@) {
            Some((a, b)) => o matches Some((x, y)) && x@ == a && y@ == b,
            None => o is None,
        },
{
    let sv = chars_of(sep);
    match split_once_exec(r, sv.as_slice()) {
        Some((a, b)) => {
            let ta = trim_vec(a.as_slice());
            let tb = trim_vec(b.as_slice());
            if ta.len() > 0 && tb.len() > 0 {
                Some((ta, tb))
            } else {
                None
            }
        },
        None => None,
    }
}

/// Parses "Artist - Title" or similar delimiter variants from ICY strings.
pub fn parse_artist_title(raw: &str) -> (r: (Option<String>, Option<String>))
    ensures
        (opt_view(r.0), opt_view(r.1)) == artist_title(raw@),
{
    let c = chars_of(raw);
    let t = trim_vec(c.as_slice());
    if t.len() == 0 {
        return (None, None);
    }
    if let Some((a, ti)) = split_pair_exec(t.as_slice(), " - ") {
        return (Some(string_from_chars(a.as_slice())), Some(string_from_chars(ti.as_slice())));
    }
    if let Some((a, ti)) = split_pair_exec(t.as_slice(), " / ") {
        return (Some(string_from_chars(a.as_slice())), Some(string_from_chars(ti.as_slice())));
    }
    (None, Some(string_from_chars(t.as_slice())))
}

// ---------------------------------------------------------------------------
// Decoding a message
// ---------------------------------------------------------------------------

/// A message received from MPV: an event or a reply to a command. Every
/// member may be absent.
pub struct IpcMessage<'a> {
    pub event: Option<String>,
    pub id: Option<u64>,
    pub name: Option<String>,
    pub data: Option<&'a JsonValue>,
    pub error: Option<String>,
    pub request_id: Option<u64>,
}

/// The model of an [`IpcMessage`].
pub struct MsgView {
    pub event: Option<Seq<char>>,
    pub id: Option<u64>,
    pub name: Option<Seq<char>>,
    pub data: Option<JsonValue>,
    pub error: Option<Seq<char>>,
    pub request_id: Option<u64>,
}

impl<'a> View for IpcMessage<'a> {
    type V = MsgView;

    open spec fn view(&self) -> MsgView {
        MsgView {
            event: opt_view(self.event),
            id: self.id,
            name: opt_view(self.name),
            data: match self.data {
                Some(d) => Some(*d),
                None => None,
            },
            error: opt_view(self.error),
            request_id: self.request_id,
        }
    }
}

/// An optional text member: absent or `null` is `None`, a string is its
/// text, anything else makes the message undecodable (outer `None`).
pub open spec fn text_field(v: Option<JsonValue>) -> Option<Option<Seq<char>>> {
    match v {
        None => Some(None),
        Some(JsonValue::Null) => Some(None),
        Some(JsonValue::Str(s)) => Some(Some(s@)),
        _ => None,
    }
}

/// An optional unsigned member: absent or `null` is `None`, a non-negative
/// integer is its value, anything else makes the message undecodable.
pub open spec fn u64_field(v: Option<JsonValue>) -> Option<Option<u64>> {
    match v {
        None => Some(None),
        Some(JsonValue::Null) => Some(None),
        Some(JsonValue::Number(JsonNumber::PosInt(n))) => Some(Some(n)),
        _ => None,
    }
}

/// An optional member of any type: absent or `null` is `None`.
pub open spec fn any_field(v: Option<JsonValue>) -> Option<JsonValue> {
    match v {
        None => None,
        Some(JsonValue::Null) => None,
        Some(x) => Some(x),
    }
}

/// A message from its six members in declaration order, each as found.
pub open spec fn msg_from(
    ev: Option<JsonValue>,
    id: Option<JsonValue>,
    name: Option<JsonValue>,
    data: Option<JsonValue>,
    err: Option<JsonValue>,
    req: Option<JsonValue>,
) -> Option<MsgView> {
    match (text_field(ev), u64_field(id), text_field(name), text_field(err), u64_field(req)) {
        (Some(e), Some(i), Some(n), Some(er), Some(r)) => Some(
            MsgView { event: e, id: i, name: n, data: any_field(data), error: er, request_id: r },
        ),
        _ => None,
    }
}

/// Element `k` of an array, when there is one.
pub open spec fn elem(a: Seq<JsonValue>, k: int) -> Option<JsonValue> {
    if 0 <= k < a.len() {
        Some(a[k])
    } else {
        None
    }
}

/// How a JSON value decodes as a message (`Deserialize` derived for a struct
/// of six optional members with defaults): an object by member names, other
/// members ignored; an array of at most six elements by position; anything
/// else, or a member of the wrong type, not at all.
pub open spec fn decode_spec(v: JsonValue) -> Option<MsgView> {
    match v {
        JsonValue::Object(_) => msg_from(
            json_get(v, "event"@),
            json_get(v, "id"@),
            json_get(v, "name"@),
            json_get(v, "data"@),
            json_get(v, "error"@),
            json_get(v, "request_id"@),
        ),
        JsonValue::Array(a) => if a@.len() <= 6 {
            msg_from(
                elem(a@, 0),
                elem(a@, 1),
                elem(a@, 2),
                elem(a@, 3),
                elem(a@, 4),
                elem(a@, 5),
            )
        } else {
            None
        },
        _ => None,
    }
}

/// An optional text member.
fn text_field_exec(v: Option<&JsonValue>) -> (r: Option<Option<String>>)
    ensures
        match text_field(
            match v {
                Some(x) => Some(*x),
                None => None,
            },
        ) {
            Some(o) => r matches Some(p) && opt_view(p) == o,
            None => r is None,
        },
{
    match v {
        None => Some(None),
        Some(JsonValue::Null) => Some(None),
        Some(JsonValue::Str(s)) => Some(Some(s.clone())),
        _ => None,
    }
}

/// An optional unsigned member.
fn u64_field_exec(v: Option<&JsonValue>) -> (r: Option<Option<u64>>)
    ensures
        r == u64_field(
            match v {
                Some(x) => Some(*x),
                None => None,
            },
        ),
{
    match v {
        None => Some(None),
        Some(JsonValue::Null) => Some(None),
        Some(JsonValue::Number(JsonNumber::PosInt(n))) => Some(Some(*n)),
        _ => None,
    }
}

/// An optional member of any type.
fn any_field_exec<'a>(v: Option<&'a JsonValue>) -> (r: Option<&'a JsonValue>)
    ensures
        match any_field(
            match v {
                Some(x) => Some(*x),
                None => None,
            },
        ) {
            Some(x) => r == Some(&x),
            None => r is None,
        },
{
    match v {
        None => None,
        Some(JsonValue::Null) => None,
        Some(x) => Some(x),
    }
}

/// A message from its six members as found.
fn msg_from_exec<'a>(
    ev: Option<&'a JsonValue>,
    id: Option<&'a JsonValue>,
    name: Option<&'a JsonValue>,
    data: Option<&'a JsonValue>,
    err: Option<&'a JsonValue>,
    req: Option<&'a JsonValue>,
) -> (r: Option<IpcMessage<'a>>)
    ensures
        match msg_from(
            match ev {
                Some(x) => Some(*x),
                None => None,
            },
            match id {
                Some(x) => Some(*x),
                None => None,
            },
            match name {
                Some(x) => Some(*x),
                None => None,
            },
            match data {
                Some(x) => Some(*x),
                None => None,
            },
            match err {
                Some(x) => Some(*x),
                None => None,
            },
            match req {
                Some(x) => Some(*x),
                None => None,
            },
        ) {
            Some(m) => r matches Some(x) && x@ == m,
            None => r is None,
        },
{
    let e = text_field_exec(ev);
    let i = u64_field_exec(id);
    let n = text_field_exec(name);
    let er = text_field_exec(err);
    let rq = u64_field_exec(req);
    match (e, i, n, er, rq) {
        (Some(e), Some(i), Some(n), Some(er), Some(rq)) => Some(
            IpcMessage {
                event: e,
                id: i,
                name: n,
                data: any_field_exec(data),
                error: er,
                request_id: rq,
            },
        ),
        _ => None,
    }
}

/// Element `k` of an array, when there is one.
fn elem_exec(a: &Vec<JsonValue>, k: usize) -> (r: Option<&JsonValue>)
    ensures
        match elem(a@, k as int) {
            Some(x) => r == Some(&x),
            None => r is None,
        },
{
    if k < a.len() {
        Some(&a[k])
    } else {
        None
    }
}

/// Decodes a JSON value read from the socket as a message; `None` when it
/// does not have the shape of one.
pub fn decode_ipc(v: &JsonValue) -> (r: Option<IpcMessage<'_>>)
    ensures
        match decode_spec(*v) {
            Some(m) => r matches Some(x) && x@ == m,
            None => r is None,
        },
{
    match v {
        JsonValue::Object(_) => msg_from_exec(
            v.get("event"),
            v.get("id"),
            v.get("name"),
            v.get("data"),
            v.get("error"),
            v.get("request_id"),
        ),
        JsonValue::Array(a) => if a.len() <= 6 {
            msg_from_exec(
                elem_exec(a, 0),
                elem_exec(a, 1),
                elem_exec(a, 2),
                elem_exec(a, 3),
                elem_exec(a, 4),
                elem_exec(a, 5),
            )
        } else {
            None
        },
        _ => None,
    }
}

// ---------------------------------------------------------------------------
// Events
// ---------------------------------------------------------------------------

/// Events emitted by the MPV IPC client. The volume is the JSON number MPV
/// reported (read as a double by the player).
#[derive(Debug, Clone)]
pub enum MpvEvent {
    State(PlaybackState),
    Metadata(TrackMetadata),
    AudioParams(AudioStreamParams),
    Volume(JsonNumber),
    RecordingState { is_recording: bool, path: Option<String> },
    Error(String),
}

/// The model of an [`MpvEvent`].
pub enum EventView {
    State(PlaybackState),
    Metadata(TrackView),
    AudioParams(ParamsView),
    Volume(JsonNumber),
    RecordingState { is_recording: bool, path: Option<Seq<char>> },
    Error(Seq<char>),
}

impl View for MpvEvent {
    type V = EventView;

    open spec fn view(&self) -> EventView {
        match self {
            MpvEvent::State(s) => EventView::State(*s),
            MpvEvent::Metadata(m) => EventView::Metadata(m@),
            MpvEvent::AudioParams(p) => EventView::AudioParams(p@),
            MpvEvent::Volume(v) => EventView::Volume(*v),
            MpvEvent::RecordingState { is_recording, path } => EventView::RecordingState {
                is_recording: *is_recording,
                path: opt_view(*path),
            },
            MpvEvent::Error(e) => EventView::Error(e@),
        }
    }
}

/// The view of an optional event.
pub open spec fn event_opt(e: Option<MpvEvent>) -> Option<EventView> {
    match e {
        Some(x) => Some(x@),
        None => None,
    }
}

// ---------------------------------------------------------------------------
// The state machine
// ---------------------------------------------------------------------------

/// What the reader knows of the player: the playback state last reported,
/// the metadata and stream parameters so far, and the idle and pause flags.
pub struct MpvTracker {
    pub state: PlaybackState,
    pub metadata: TrackMetadata,
    pub params: AudioStreamParams,
    pub is_idle: bool,
    pub is_paused: bool,
}

/// The model of an [`MpvTracker`].
pub struct TrackerView {
    pub state: PlaybackState,
    pub metadata: TrackView,
    pub params: ParamsView,
    pub is_idle: bool,
    pub is_paused: bool,
}

impl View for MpvTracker {
    type V = TrackerView;

    open spec fn view(&self) -> TrackerView {
        TrackerView {
            state: self.state,
            metadata: self.metadata@,
            params: self.params@,
            is_idle: self.is_idle,
            is_paused: self.is_paused,
        }
    }
}

/// The tracker before any message: stopped, idle, not paused, nothing known.
pub open spec fn tracker_init() -> TrackerView {
    TrackerView {
        state: PlaybackState::Stopped,
        metadata: TrackView {
            artist: None,
            title: None,
            album: None,
            year: None,
            raw_title: None,
            cover_url: None,
            duration_remaining_secs: None,
        },
        params: ParamsView {
            codec: Seq::empty(),
            sample_rate: 0,
            channels: 0,
            bit_depth: None,
            bitrate_kbps: None,
        },
        is_idle: true,
        is_paused: false,
    }
}

/// The playback state the flags describe: stopped when idle, else paused or playing.
pub open spec fn state_of(is_idle: bool, is_paused: bool) -> PlaybackState {
    if is_idle {
        PlaybackState::Stopped
    } else if is_paused {
        PlaybackState::Paused
    } else {
        PlaybackState::Playing
    }
}

/// After a flag changed: report the derived state when it differs from the last one.
pub open spec fn settle(t: TrackerView) -> (TrackerView, Option<EventView>) {
    let ns = state_of(t.is_idle, t.is_paused);
    if ns != t.state {
        (TrackerView { state: ns, ..t }, Some(EventView::State(ns)))
    } else {
        (t, None)
    }
}

/// The bit depth an MPV sample format announces: 24, 16 or 32, looked for in that order.
pub open spec fn mpv_format_depth(fmt: Seq<char>) -> Option<u8> {
    if contains_seq(fmt, "24"@) || contains_seq(fmt, "s24"@) {
        Some(24)
    } else if contains_seq(fmt, "16"@) || contains_seq(fmt, "s16"@) {
        Some(16)
    } else if contains_seq(fmt, "32"@) || contains_seq(fmt, "f32"@) {
        Some(32)
    } else {
        None
    }
}

/// The stream parameters after an `audio-params` object `d`: its sample rate
/// (0 unless a non-negative integer, cut to 32 bits), its channel count (2
/// unless a non-negative integer, cut to 32 bits) and the depth its format
/// announces, each only when the member is there with the right kind of value.
pub open spec fn params_update(p: ParamsView, d: JsonValue) -> ParamsView {
    let p1 = match json_get(d, "samplerate"@) {
        Some(JsonValue::Number(n)) => ParamsView {
            sample_rate: match n {
                JsonNumber::PosInt(u) => u as u32,
                _ => 0,
            },
            ..p
        },
        _ => p,
    };
    let p2 = match json_get(d, "channel-count"@) {
        Some(JsonValue::Number(n)) => ParamsView {
            channels: match n {
                JsonNumber::PosInt(u) => u as u32,
                _ => 2,
            },
            ..p1
        },
        _ => p1,
    };
    match json_get(d, "format"@) {
        Some(JsonValue::Str(f)) => match mpv_format_depth(f@) {
            Some(b) => ParamsView { bit_depth: Some(b), ..p2 },
            None => p2,
        },
        _ => p2,
    }
}

/// What a `property-change` of the observer `id` with value `data` does.
pub open spec fn property_change(t: TrackerView, id: u64, data: Option<JsonValue>) -> (
    TrackerView,
    Option<EventView>,
) {
    if id == OBS_PAUSE {
        match data {
            Some(JsonValue::Bool(p)) => settle(TrackerView { is_paused: p, ..t }),
            _ => (t, None),
        }
    } else if id == OBS_IDLE {
        match data {
            Some(JsonValue::Bool(i)) => settle(TrackerView { is_idle: i, ..t }),
            _ => (t, None),
        }
    } else if id == OBS_AUDIO_PARAMS {
        match data {
            Some(JsonValue::Object(m)) => {
                let np = params_update(t.params, data->0);
                (TrackerView { params: np, ..t }, Some(EventView::AudioParams(np)))
            },
            _ => (t, None),
        }
    } else if id == OBS_MEDIA_TITLE || id == OBS_ICY_TITLE {
        match data {
            Some(JsonValue::Str(s)) => if trim(s@).len() > 0 {
                let at = artist_title(s@);
                let md = TrackView { artist: at.0, title: at.1, raw_title: Some(s@), ..t.metadata };
                (TrackerView { metadata: md, ..t }, Some(EventView::Metadata(md)))
            } else {
                (t, None)
            },
            _ => (t, None),
        }
    } else if id == OBS_AUDIO_BITRATE {
        match data {
            Some(JsonValue::Number(n)) => {
                let np = ParamsView { bitrate_kbps: Some(number_as_u32(n) / 1000), ..t.params };
                (TrackerView { params: np, ..t }, Some(EventView::AudioParams(np)))
            },
            _ => (t, None),
        }
    } else if id == OBS_AUDIO_CODEC {
        match data {
            Some(JsonValue::Str(c)) => {
                let np = ParamsView { codec: uppercase(c@), ..t.params };
                (TrackerView { params: np, ..t }, Some(EventView::AudioParams(np)))
            },
            _ => (t, None),
        }
    } else if id == OBS_VOLUME {
        match data {
            Some(JsonValue::Number(n)) => (t, Some(EventView::Volume(n))),
            _ => (t, None),
        }
    } else if id == OBS_STREAM_RECORD {
        match data {
            Some(JsonValue::Str(p)) => if trim(p@).len() > 0 {
                (t, Some(EventView::RecordingState { is_recording: true, path: Some(p@) }))
            } else {
                (t, Some(EventView::RecordingState { is_recording: false, path: None }))
            },
            _ => (t, Some(EventView::RecordingState { is_recording: false, path: None })),
        }
    } else {
        (t, None)
    }
}

/// What a message does to the tracker, and the event it reports, if any.
pub open spec fn tracker_step(t: TrackerView, m: MsgView) -> (TrackerView, Option<EventView>) {
    match m.event {
        None => (t, None),
        Some(e) => if e == "property-change"@ {
            property_change(
                t,
                match m.id {
                    Some(i) => i,
                    None => 0,
                },
                m.data,
            )
        } else if e == "start-file"@ {
            (TrackerView { is_idle: false, ..t }, None)
        } else if e == "playback-restart"@ {
            if !t.is_paused {
                (
                    TrackerView { is_idle: false, state: PlaybackState::Playing, ..t },
                    Some(EventView::State(PlaybackState::Playing)),
                )
            } else {
                (TrackerView { is_idle: false, ..t }, None)
            }
        } else if e == "end-file"@ {
            (
                TrackerView { state: PlaybackState::Stopped, ..t },
                Some(EventView::State(PlaybackState::Stopped)),
            )
        } else {
            (t, None)
        },
    }
}

/// Whether the characters `s` spell the text `lit`.
fn is_text(s: &str, lit: &str) -> (r: bool)
    ensures
        r == (s@ == lit@),
{
    crate::text::str_eq(s, lit)
}

/// The bit depth an MPV sample format announces.
fn mpv_format_depth_exec(fmt: &str) -> (r: Option<u8>)
    ensures
        r == mpv_format_depth(fmt@),
{
    let f = chars_of(fmt);
    if contains_exec(f.as_slice(), chars_of("24").as_slice()) || contains_exec(
        f.as_slice(),
        chars_of("s24").as_slice(),
    ) {
        Some(24)
    } else if contains_exec(f.as_slice(), chars_of("16").as_slice()) || contains_exec(
        f.as_slice(),
        chars_of("s16").as_slice(),
    ) {
        Some(16)
    } else if contains_exec(f.as_slice(), chars_of("32").as_slice()) || contains_exec(
        f.as_slice(),
        chars_of("f32").as_slice(),
    ) {
        Some(32)
    } else {
        None
    }
}

/// Whether a text is blank once trimmed.
fn is_blank(s: &str) -> (r: bool)
    ensures
        r == (trim(s@).len() == 0),
{
    let c = chars_of(s);
    let t = trim_vec(c.as_slice());
    t.len() == 0
}

impl MpvTracker {
    /// The tracker before any message: stopped, idle, not paused, nothing known.
    pub fn new() -> (r: MpvTracker)
        ensures
            r@ == tracker_init(),
    {
        let r = MpvTracker {
            state: PlaybackState::Stopped,
            metadata: TrackMetadata::empty(),
            params: AudioStreamParams::empty(),
            is_idle: true,
            is_paused: false,
        };
        assert(r@.params.codec =~= Seq::<char>::empty());
        r
    }

    /// Report the derived state when it differs from the last one.
    fn settle(&mut self) -> (r: Option<MpvEvent>)
        ensures
            (final(self)@, event_opt(r)) == settle(old(self)@),
    {
        let ns = if self.is_idle {
            PlaybackState::Stopped
        } else if self.is_paused {
            PlaybackState::Paused
        } else {
            PlaybackState::Playing
        };
        if ns != self.state {
            self.state = ns;
            Some(MpvEvent::State(ns))
        } else {
            None
        }
    }

    /// Take in an `audio-params` object.
    fn update_params(&mut self, d: &JsonValue)
        ensures
            final(self)@ == (TrackerView { params: params_update(old(self)@.params, *d), ..old(self)@ }),
    {
        match d.get("samplerate") {
            Some(JsonValue::Number(n)) => {
                self.params.sample_rate = match n {
                    JsonNumber::PosInt(u) => *u as u32,
                    _ => 0,
                };
            },
            _ => {},
        }
        match d.get("channel-count") {
            Some(JsonValue::Number(n)) => {
                self.params.channels = match n {
                    JsonNumber::PosInt(u) => *u as u32,
                    _ => 2,
                };
            },
            _ => {},
        }
        match d.get("format") {
            Some(JsonValue::Str(f)) => {
                if let Some(b) = mpv_format_depth_exec(f.as_str()) {
                    self.params.bit_depth = Some(b);
                }
            },
            _ => {},
        }
    }

    /// What a `property-change` of the observer `id` with value `data` does.
    fn property_change(&mut self, id: u64, data: Option<&JsonValue>) -> (r: Option<MpvEvent>)
        ensures
            (final(self)@, event_opt(r)) == property_change(
                old(self)@,
                id,
                match data {
                    Some(d) => Some(*d),
                    None => None,
                },
            ),
    {
        if id == OBS_PAUSE {
            match data {
                Some(JsonValue::Bool(p)) => {
                    self.is_paused = *p;
                    self.settle()
                },
                _ => None,
            }
        } else if id == OBS_IDLE {
            match data {
                Some(JsonValue::Bool(i)) => {
                    self.is_idle = *i;
                    self.settle()
                },
                _ => None,
            }
        } else if id == OBS_AUDIO_PARAMS {
            match data {
                Some(JsonValue::Object(_)) => {
                    self.update_params(data.unwrap());
                    Some(MpvEvent::AudioParams(self.params.copy()))
                },
                _ => None,
            }
        } else if id == OBS_MEDIA_TITLE || id == OBS_ICY_TITLE {
            match data {
                Some(JsonValue::Str(s)) => {
                    if !is_blank(s.as_str()) {
                        let (artist, title) = parse_artist_title(s.as_str());
                        self.metadata.artist = artist;
                        self.metadata.title = title;
                        self.metadata.raw_title = Some(s.clone());
                        Some(MpvEvent::Metadata(self.metadata.copy()))
                    } else {
                        None
                    }
                },
                _ => None,
            }
        } else if id == OBS_AUDIO_BITRATE {
            match data {
                Some(JsonValue::Number(n)) => {
                    let bps = number_to_u32(*n);
                    self.params.bitrate_kbps = Some(bps / 1000);
                    Some(MpvEvent::AudioParams(self.params.copy()))
                },
                _ => None,
            }
        } else if id == OBS_AUDIO_CODEC {
            match data {
                Some(JsonValue::Str(c)) => {
                    self.params.codec = str_to_uppercase(c.as_str());
                    Some(MpvEvent::AudioParams(self.params.copy()))
                },
                _ => None,
            }
        } else if id == OBS_VOLUME {
            match data {
                Some(JsonValue::Number(n)) => Some(MpvEvent::Volume(*n)),
                _ => None,
            }
        } else if id == OBS_STREAM_RECORD {
            match data {
                Some(JsonValue::Str(p)) => {
                    if !is_blank(p.as_str()) {
                        Some(MpvEvent::RecordingState { is_recording: true, path: Some(p.clone()) })
                    } else {
                        Some(MpvEvent::RecordingState { is_recording: false, path: None })
                    }
                },
                _ => Some(MpvEvent::RecordingState { is_recording: false, path: None }),
            }
        } else {
            None
        }
    }

    /// Takes in one decoded message and returns the event it reports, if any.
    pub fn handle_message(&mut self, msg: &IpcMessage) -> (r: Option<MpvEvent>)
        ensures
            (final(self)@, event_opt(r)) == tracker_step(old(self)@, msg@),
    {
        match &msg.event {
            None => None,
            Some(e) => {
                if is_text(e.as_str(), "property-change") {
                    let id = match msg.id {
                        Some(i) => i,
                        None => 0,
                    };
                    self.property_change(id, msg.data)
                } else if is_text(e.as_str(), "start-file") {
                    self.is_idle = false;
                    None
                } else if is_text(e.as_str(), "playback-restart") {
                    self.is_idle = false;
                    if !self.is_paused {
                        self.state = PlaybackState::Playing;
                        Some(MpvEvent::State(PlaybackState::Playing))
                    } else {
                        None
                    }
                } else if is_text(e.as_str(), "end-file") {
                    self.state = PlaybackState::Stopped;
                    Some(MpvEvent::State(PlaybackState::Stopped))
                } else {
                    None
                }
            },
        }
    }
}

// ---------------------------------------------------------------------------
// Laws
// ---------------------------------------------------------------------------

/// A text whose first and last characters are not whitespace is its own trim.
proof fn lemma_trim_unchanged(s: Seq<char>)
    requires
        s.len() > 0,
        !is_ws(s[0]),
        !is_ws(s.last()),
    ensures
        trim(s) == s,
{
    assert(trim_start(s) == s);
    assert(trim_end(s) == s);
}

/// A track's display name `Artist - Title` reads back as that artist and
/// title, for an artist and a title that are non-empty with no surrounding
/// whitespace, when the artist followed by ` -` holds no ` - ` (which would
/// be taken for the separator).
pub proof fn lemma_display_name_round_trip(t: TrackView)
    requires
        t.artist matches Some(a) && a.len() > 0 && !is_ws(a[0]) && !is_ws(a.last()) && !contains_seq(
            a + " -"@,
            " - "@,
        ),
        t.title matches Some(ti) && ti.len() > 0 && !is_ws(ti[0]) && !is_ws(ti.last()),
    ensures
        artist_title(display_name_of(t)) == (t.artist, t.title),
{
    let a = t.artist->0;
    let ti = t.title->0;
    let sep = " - "@;
    reveal_strlit(" - ");
    reveal_strlit(" -");
    let r = a + sep + ti;
    assert(display_name_of(t) == r);
    assert(r[0] == a[0]);
    assert(r.last() == ti.last());
    lemma_trim_unchanged(r);
    lemma_trim_unchanged(a);
    lemma_trim_unchanged(ti);
    let pre = a + " -"@;
    // the first separator starts right after the artist
    assert(occurs_at(r, sep, a.len() as int)) by {
        assert(r.subrange(a.len() as int, a.len() as int + 3) =~= sep);
    }
    assert forall|j: int| 0 <= j < a.len() implies !occurs_at(r, sep, j) by {
        if occurs_at(r, sep, j) {
            assert(r.subrange(j, j + 3) =~= pre.subrange(j, j + 3));
            assert(occurs_at(pre, sep, j));
        }
    }
    lemma_find_from(r, sep, 0);
    assert(find_first(r, sep) == Some(a.len() as int)) by {
        match find_first(r, sep) {
            Some(i) => {
                if i < a.len() {
                } else if i > a.len() {
                    assert(!occurs_at(r, sep, a.len() as int));
                }
            },
            None => {
                assert(!occurs_at(r, sep, a.len() as int));
            },
        }
    }
    assert(r.subrange(0, a.len() as int) =~= a);
    assert(r.subrange(a.len() as int + 3, r.len() as int) =~= ti);
}

/// A change of the pause or idle flag reports a state exactly when the state
/// the flags describe differs from the last one reported, and the tracker
/// then holds that state.
pub proof fn lemma_flag_change_reports_state(t: TrackerView, id: u64, b: bool)
    requires
        id == OBS_PAUSE || id == OBS_IDLE,
    ensures
        ({
            let (t2, e) = property_change(t, id, Some(JsonValue::Bool(b)));
            &&& t2.state == state_of(t2.is_idle, t2.is_paused)
            &&& (e is Some <==> t.state != t2.state)
            &&& (e matches Some(ev) ==> ev == EventView::State(t2.state))
            &&& (id == OBS_PAUSE ==> t2.is_paused == b && t2.is_idle == t.is_idle)
            &&& (id == OBS_IDLE ==> t2.is_idle == b && t2.is_paused == t.is_paused)
        }),
{
}

/// While idle, the player is reported stopped whatever its pause flag says.
pub proof fn lemma_idle_means_stopped(t: TrackerView, b: bool)
    ensures
        property_change(t, OBS_IDLE, Some(JsonValue::Bool(true))).0.state == PlaybackState::Stopped,
        property_change(TrackerView { is_idle: true, ..t }, OBS_PAUSE, Some(JsonValue::Bool(b))).0.state
            == PlaybackState::Stopped,
{
}

/// A text holding `p` holds `p` without its first character.
proof fn lemma_contains_tail(f: Seq<char>, p: Seq<char>)
    requires
        contains_seq(f, p),
        p.len() > 0,
    ensures
        contains_seq(f, p.drop_first()),
{
    let i = choose|i: int| occurs_at(f, p, i);
    assert(f.subrange(i + 1, i + 1 + p.drop_first().len()) =~= p.drop_first());
    assert(occurs_at(f, p.drop_first(), i + 1));
}

/// An `audio-params` object with a `format` text sets the bit depth the
/// format announces: 24 when it mentions `24`; else 16 when it mentions
/// `16`; else 32 when it mentions `32`; otherwise the depth stays as it was.
pub proof fn lemma_format_sets_depth(p: ParamsView, d: JsonValue, f: String)
    requires
        json_get(d, "format"@) == Some(JsonValue::Str(f)),
    ensures
        contains_seq(f@, "24"@) ==> params_update(p, d).bit_depth == Some(24u8),
        !contains_seq(f@, "24"@) && contains_seq(f@, "16"@) ==> params_update(p, d).bit_depth == Some(
            16u8,
        ),
        !contains_seq(f@, "24"@) && !contains_seq(f@, "16"@) && contains_seq(f@, "32"@) ==> params_update(
            p,
            d,
        ).bit_depth == Some(32u8),
        !contains_seq(f@, "24"@) && !contains_seq(f@, "16"@) && !contains_seq(f@, "32"@)
            ==> params_update(p, d).bit_depth == p.bit_depth,
{
    reveal_strlit("s24");
    reveal_strlit("24");
    reveal_strlit("s16");
    reveal_strlit("16");
    reveal_strlit("f32");
    reveal_strlit("32");
    assert("s24"@.drop_first() =~= "24"@);
    assert("s16"@.drop_first() =~= "16"@);
    assert("f32"@.drop_first() =~= "32"@);
    if contains_seq(f@, "s24"@) {
        lemma_contains_tail(f@, "s24"@);
    }
    if contains_seq(f@, "s16"@) {
        lemma_contains_tail(f@, "s16"@);
    }
    if contains_seq(f@, "f32"@) {
        lemma_contains_tail(f@, "f32"@);
    }
}

/// A `property-change` of the `audio-params` observer whose data is an
/// object updates the tracked stream parameters from it, the depth being
/// the one its `format` announces, and reports the updated parameters.
pub proof fn lemma_audio_params_change(t: TrackerView, m: MsgView, f: String)
    requires
        m.event == Some("property-change"@),
        m.id == Some(OBS_AUDIO_PARAMS),
        m.data matches Some(JsonValue::Object(_)),
        json_get(m.data->0, "format"@) == Some(JsonValue::Str(f)),
    ensures
        tracker_step(t, m).0.params == params_update(t.params, m.data->0),
        tracker_step(t, m).1 == Some(EventView::AudioParams(params_update(t.params, m.data->0))),
        contains_seq(f@, "16"@) && !contains_seq(f@, "24"@) ==> tracker_step(t, m).0.params.bit_depth
            == Some(16u8),
        contains_seq(f@, "24"@) ==> tracker_step(t, m).0.params.bit_depth == Some(24u8),
{
    lemma_format_sets_depth(t.params, m.data->0, f);
}

} // verus!
