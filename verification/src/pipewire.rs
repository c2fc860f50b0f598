//! PipeWire graph inspection: reading a `pw-dump` document into the active
//! sink, the playing streams, the DSP filters, the allowed clock rates, and
//! the clients that lock the graph clock away from the source rate.

use vstd::prelude::*;
use crate::json::{
    json_document, parse_json_document,
    get_opt, json_array, json_get, json_get_opt, json_str, json_u64, str_opt, u64_opt, JsonValue,
};
use crate::events::opt_view;
use crate::seq_search::{first_where, lemma_first_where, lemma_first_where_at, lemma_first_where_none};
use crate::text::{
    chars_of, contains_exec, contains_seq, dec_repr, is_ws, lemma_run_end, run_end, lowercase, parse_u32_str, parse_uint,
    push_dec, push_str, str_contains, str_eq, str_to_lowercase, string_from_chars,
    string_from_vec, to_string,
};
use crate::util::{format_sample_rate, sample_rate_text};

verus! {

// ---------------------------------------------------------------------------
// Allowed clock rates
// ---------------------------------------------------------------------------

/// `[`, `]`, `,` and `"` read as spaces.
pub open spec fn rate_sep(c: char) -> char {
    if c == '[' || c == ']' || c == ',' || c == '"' {
        ' '
    } else {
        c
    }
}

/// The whitespace-separated words of `s` from index `i` on (`str::split_whitespace`).
pub open spec fn words_from(s: Seq<char>, i: nat) -> Seq<Seq<char>>
    decreases s.len() - i,
{
    if i >= s.len() {
        Seq::empty()
    } else if is_ws(s[i as int]) {
        words_from(s, i + 1)
    } else {
        let j = run_end(s, i);
        if j <= i || j > s.len() {
            Seq::empty()
        } else {
            seq![s.subrange(i as int, j as int)] + words_from(s, j)
        }
    }
}

/// The words that read as a `u32`, as numbers.
pub open spec fn parse_words(ws: Seq<Seq<char>>) -> Seq<u32>
    decreases ws.len(),
{
    if ws.len() == 0 {
        Seq::empty()
    } else {
        parse_words(ws.drop_last()) + match parse_uint(ws.last(), u32::MAX as int) {
            Some(v) => seq![v as u32],
            None => Seq::empty(),
        }
    }
}

/// The rates that `parse_allowed_rates` reads from `raw`: with brackets,
/// commas and quotes read as spaces, every word that is a `u32`.
pub open spec fn allowed_rates(raw: Seq<char>) -> Seq<u32> {
    parse_words(words_from(raw.map_values(|c: char| rate_sep(c)), 0))
}

/// Parses "[ 44100 48000 88200 96000 ]" or "44100, 48000" into a `Vec<u32>`.
pub fn parse_allowed_rates(raw: &str) -> (r: Vec<u32>)
    ensures
        r@ == allowed_rates(raw@),
{
    let v = chars_of(raw);
    let mut m: Vec<char> = Vec::new();
    let mut k: usize = 0;
    while k < v.len()
        invariant
            k <= v@.len(),
            v@ == raw@,
            m@ == v@.subrange(0, k as int).map_values(|c: char| rate_sep(c)),
        decreases v@.len() - k,
    {
        let c = v[k];
        if c == '[' || c == ']' || c == ',' || c == '"' {
            m.push(' ');
        } else {
            m.push(c);
        }
        k = k + 1;
        assert(m@ =~= v@.subrange(0, k as int).map_values(|c: char| rate_sep(c)));
    }
    assert(v@.subrange(0, k as int) =~= v@);
    let ghost ms = m@;
    let mut out: Vec<u32> = Vec::new();
    let mut i: usize = 0;
    let ghost done: Seq<Seq<char>> = Seq::empty();
    while i < m.len()
        invariant
            ms == m@,
            ms == raw@.map_values(|c: char| rate_sep(c)),
            i <= ms.len(),
            words_from(ms, 0) == done + words_from(ms, i as nat),
            out@ == parse_words(done),
        decreases ms.len() - i,
    {
        if crate::text::char_is_ws(m[i]) {
            assert(words_from(ms, i as nat) == words_from(ms, (i + 1) as nat));
            i = i + 1;
        } else {
            let mut j: usize = i;
            while j < m.len() && !crate::text::char_is_ws(m[j])
                invariant
                    ms == m@,
                    i <= j <= ms.len(),
                    run_end(ms, i as nat) == run_end(ms, j as nat),
                decreases ms.len() - j,
            {
                j = j + 1;
            }
            proof {
                lemma_run_end(ms, i as nat);
                assert(run_end(ms, j as nat) == j);
                assert(words_from(ms, i as nat) == seq![ms.subrange(i as int, j as int)]
                    + words_from(ms, j as nat));
            }
            let parsed = parse_u32_str(m.as_slice(), i, j);
            let ghost w = ms.subrange(i as int, j as int);
            match parsed {
                Some(x) => {
                    out.push(x);
                },
                None => {},
            }
            proof {
                let nd = done.push(w);
                assert(nd.drop_last() =~= done);
                assert(nd.last() == w);
                assert(out@ =~= parse_words(nd));
                assert(words_from(ms, 0) =~= nd + words_from(ms, j as nat));
                done = nd;
            }
            i = j;
        }
    }
    proof {
        assert(words_from(ms, i as nat) == Seq::<Seq<char>>::empty());
        assert(done + Seq::<Seq<char>>::empty() =~= done);
    }
    out
}

// ---------------------------------------------------------------------------
// Graph report types
// ---------------------------------------------------------------------------

/// Summary of an active PipeWire audio sink.
#[derive(Debug, Clone)]
pub struct PipeWireSink {
    pub id: u64,
    pub name: String,
    pub description: String,
    pub state: String,
    pub active_rate: Option<u32>,
    pub format: Option<String>,
    pub channels: Option<u32>,
    pub is_running: bool,
}

/// The abstract value of a `PipeWireSink`.
pub struct SinkView {
    pub id: u64,
    pub name: Seq<char>,
    pub description: Seq<char>,
    pub state: Seq<char>,
    pub active_rate: Option<u32>,
    pub format: Option<Seq<char>>,
    pub channels: Option<u32>,
    pub is_running: bool,
}

impl View for PipeWireSink {
    type V = SinkView;

    open spec fn view(&self) -> SinkView {
        SinkView {
            id: self.id,
            name: self.name@,
            description: self.description@,
            state: self.state@,
            active_rate: self.active_rate,
            format: opt_view(self.format),
            channels: self.channels,
            is_running: self.is_running,
        }
    }
}

/// An active audio stream in the PipeWire graph.
#[derive(Debug, Clone)]
pub struct PipeWireStream {
    pub id: u64,
    pub name: String,
    pub app_name: String,
    pub binary: String,
    pub pid: Option<u64>,
    pub rate: Option<u32>,
    pub format: Option<String>,
    pub state: String,
    pub is_mpv: bool,
    pub is_running: bool,
}

/// The abstract value of a `PipeWireStream`.
pub struct StreamView {
    pub id: u64,
    pub name: Seq<char>,
    pub app_name: Seq<char>,
    pub binary: Seq<char>,
    pub pid: Option<u64>,
    pub rate: Option<u32>,
    pub format: Option<Seq<char>>,
    pub state: Seq<char>,
    pub is_mpv: bool,
    pub is_running: bool,
}

impl View for PipeWireStream {
    type V = StreamView;

    open spec fn view(&self) -> StreamView {
        StreamView {
            id: self.id,
            name: self.name@,
            app_name: self.app_name@,
            binary: self.binary@,
            pid: self.pid,
            rate: self.rate,
            format: opt_view(self.format),
            state: self.state@,
            is_mpv: self.is_mpv,
            is_running: self.is_running,
        }
    }
}

/// Conflicting audio client locking the PipeWire clock graph.
#[derive(Debug, Clone)]
pub struct CulpritClient {
    pub name: String,
    pub pid: Option<u64>,
    pub locking_rate: u32,
    pub description: String,
}

/// The abstract value of a `CulpritClient`.
pub struct CulpritView {
    pub name: Seq<char>,
    pub pid: Option<u64>,
    pub locking_rate: u32,
    pub description: Seq<char>,
}

impl View for CulpritClient {
    type V = CulpritView;

    open spec fn view(&self) -> CulpritView {
        CulpritView {
            name: self.name@,
            pid: self.pid,
            locking_rate: self.locking_rate,
            description: self.description@,
        }
    }
}

/// PipeWire graph diagnostic inspection report.
#[derive(Debug, Clone)]
pub struct PipeWireGraphReport {
    pub active_sink: Option<PipeWireSink>,
    pub mpv_stream: Option<PipeWireStream>,
    pub all_active_streams: Vec<PipeWireStream>,
    pub allowed_clock_rates: Vec<u32>,
    pub default_clock_rate: Option<u32>,
    pub dsp_filters_active: Vec<String>,
    pub culprits: Vec<CulpritClient>,
}

/// The abstract value of a `PipeWireGraphReport`.
#[verifier::ext_equal]
pub struct ReportView {
    pub active_sink: Option<SinkView>,
    pub mpv_stream: Option<StreamView>,
    pub all_active_streams: Seq<StreamView>,
    pub allowed_clock_rates: Seq<u32>,
    pub default_clock_rate: Option<u32>,
    pub dsp_filters_active: Seq<Seq<char>>,
    pub culprits: Seq<CulpritView>,
}

impl View for PipeWireGraphReport {
    type V = ReportView;

    open spec fn view(&self) -> ReportView {
        ReportView {
            active_sink: match self.active_sink {
                Some(s) => Some(s@),
                None => None,
            },
            mpv_stream: match self.mpv_stream {
                Some(s) => Some(s@),
                None => None,
            },
            all_active_streams: self.all_active_streams@.map_values(|s: PipeWireStream| s@),
            allowed_clock_rates: self.allowed_clock_rates@,
            default_clock_rate: self.default_clock_rate,
            dsp_filters_active: self.dsp_filters_active@.map_values(|s: String| s@),
            culprits: self.culprits@.map_values(|c: CulpritClient| c@),
        }
    }
}

// ---------------------------------------------------------------------------
// What a node of the dump says
// ---------------------------------------------------------------------------

/// The facts read from a `PipeWire:Interface:Node` item.
pub struct NodeFacts {
    pub id: u64,
    pub state: Seq<char>,
    pub is_running: bool,
    pub media_class: Seq<char>,
    pub node_name: Seq<char>,
    pub node_desc: Seq<char>,
    pub app_name: Seq<char>,
    pub binary: Seq<char>,
    pub pid: Option<u64>,
    pub rate: Option<u32>,
    pub format: Option<Seq<char>>,
    pub channels: Option<u32>,
}

/// A text, or `default` when there is none.
pub open spec fn or_text(o: Option<Seq<char>>, default: Seq<char>) -> Seq<char> {
    match o {
        Some(s) => s,
        None => default,
    }
}

/// The `type` of a dump item, or the empty text.
pub open spec fn item_type(item: JsonValue) -> Seq<char> {
    or_text(json_str(json_get(item, "type"@)), Seq::empty())
}

/// The first element of the `Format` parameters of a node's info.
pub open spec fn first_format(info: JsonValue) -> Option<JsonValue> {
    match json_array(json_get_opt(json_get(info, "params"@), "Format"@)) {
        Some(a) => if a.len() > 0 {
            Some(a[0])
        } else {
            None
        },
        None => None,
    }
}

/// An optional `u64` cut to `u32` (`as u32`).
pub open spec fn to_u32(o: Option<u64>) -> Option<u32> {
    match o {
        Some(v) => Some(v as u32),
        None => None,
    }
}

/// The facts of a node item with an `info` member; `None` without one.
pub open spec fn node_facts(item: JsonValue) -> Option<NodeFacts> {
    match json_get(item, "info"@) {
        None => None,
        Some(info) => {
            let props = json_get(info, "props"@);
            let state = or_text(json_str(json_get(info, "state"@)), "unknown"@);
            let node_name = or_text(json_str(json_get_opt(props, "node.name"@)), Seq::empty());
            let fmt = first_format(info);
            let rate0 = to_u32(json_u64(json_get_opt(fmt, "rate"@)));
            Some(
                NodeFacts {
                    id: match json_u64(json_get(item, "id"@)) {
                        Some(i) => i,
                        None => 0,
                    },
                    state: state,
                    is_running: state == "running"@,
                    media_class: or_text(json_str(json_get_opt(props, "media.class"@)), Seq::empty()),
                    node_name: node_name,
                    node_desc: or_text(json_str(json_get_opt(props, "node.description"@)), node_name),
                    app_name: or_text(json_str(json_get_opt(props, "application.name"@)), Seq::empty()),
                    binary: or_text(
                        json_str(json_get_opt(props, "application.process.binary"@)),
                        Seq::empty(),
                    ),
                    pid: json_u64(json_get_opt(props, "application.process.id"@)),
                    rate: match rate0 {
                        Some(r) => Some(r),
                        None => to_u32(json_u64(json_get_opt(props, "audio.rate"@))),
                    },
                    format: json_str(json_get_opt(fmt, "format"@)),
                    channels: to_u32(json_u64(json_get_opt(fmt, "channels"@))),
                },
            )
        },
    }
}

/// The node is a software DSP filter: a `Filter` media class, or a name
/// that mentions `filter`, `easyeffects` or `lsp`.
pub open spec fn is_filter_node(n: NodeFacts) -> bool {
    contains_seq(n.media_class, "Filter"@) || contains_seq(n.node_name, "filter"@) || contains_seq(
        n.node_name,
        "easyeffects"@,
    ) || contains_seq(n.node_name, "lsp"@)
}

/// The node is an audio playback stream.
pub open spec fn is_stream_node(n: NodeFacts) -> bool {
    n.media_class == "Stream/Output/Audio"@ || (!contains_seq(n.media_class, "Sink"@)
        && !contains_seq(n.media_class, "Source"@) && (n.app_name.len() > 0 || n.binary.len() > 0))
}

/// The stream belongs to MPV: its application, binary or node name mentions `mpv` in any case.
pub open spec fn is_mpv_node(n: NodeFacts) -> bool {
    contains_seq(lowercase(n.app_name), "mpv"@) || contains_seq(lowercase(n.binary), "mpv"@)
        || contains_seq(lowercase(n.node_name), "mpv"@)
}

/// The sink a node describes.
pub open spec fn sink_of(n: NodeFacts) -> SinkView {
    SinkView {
        id: n.id,
        name: n.node_name,
        description: n.node_desc,
        state: n.state,
        active_rate: n.rate,
        format: n.format,
        channels: n.channels,
        is_running: n.is_running,
    }
}

/// The stream a node describes.
pub open spec fn stream_of(n: NodeFacts) -> StreamView {
    StreamView {
        id: n.id,
        name: n.node_name,
        app_name: n.app_name,
        binary: n.binary,
        pid: n.pid,
        rate: n.rate,
        format: n.format,
        state: n.state,
        is_mpv: is_mpv_node(n),
        is_running: n.is_running,
    }
}

// ---------------------------------------------------------------------------
// The report, as a scan over the dump items
// ---------------------------------------------------------------------------

/// What the reader has collected after some items of the dump.
#[verifier::ext_equal]
pub struct ScanState {
    pub allowed: Seq<u32>,
    pub default_rate: Option<u32>,
    pub filters: Seq<Seq<char>>,
    pub sinks: Seq<SinkView>,
    pub streams: Seq<StreamView>,
    pub mpv: Option<StreamView>,
}

/// Nothing collected yet.
pub open spec fn scan_init() -> ScanState {
    ScanState {
        allowed: Seq::empty(),
        default_rate: None,
        filters: Seq::empty(),
        sinks: Seq::empty(),
        streams: Seq::empty(),
        mpv: None,
    }
}

/// What one item adds. A core item sets the allowed and default clock rates
/// that its `props` give; a node item adds a running filter, a sink, a
/// running stream, and the latest MPV stream.
pub open spec fn scan_step(st: ScanState, item: JsonValue) -> ScanState {
    let ty = item_type(item);
    if ty == "PipeWire:Interface:Core"@ {
        match json_get_opt(json_get(item, "info"@), "props"@) {
            Some(p) => ScanState {
                allowed: match json_str(json_get(p, "default.clock.allowed-rates"@)) {
                    Some(r) => allowed_rates(r),
                    None => st.allowed,
                },
                default_rate: match json_u64(json_get(p, "default.clock.rate"@)) {
                    Some(d) => Some(d as u32),
                    None => st.default_rate,
                },
                ..st
            },
            None => st,
        }
    } else if ty == "PipeWire:Interface:Node"@ {
        match node_facts(item) {
            Some(n) => ScanState {
                filters: if is_filter_node(n) && n.is_running {
                    st.filters.push(n.node_desc)
                } else {
                    st.filters
                },
                sinks: if n.media_class == "Audio/Sink"@ {
                    st.sinks.push(sink_of(n))
                } else {
                    st.sinks
                },
                streams: if is_stream_node(n) && n.is_running {
                    st.streams.push(stream_of(n))
                } else {
                    st.streams
                },
                mpv: if is_stream_node(n) && is_mpv_node(n) {
                    Some(stream_of(n))
                } else {
                    st.mpv
                },
                ..st
            },
            None => st,
        }
    } else {
        st
    }
}

/// What the reader has collected after the items `items`.
pub open spec fn scan(items: Seq<JsonValue>) -> ScanState
    decreases items.len(),
{
    if items.len() == 0 {
        scan_init()
    } else {
        scan_step(scan(items.drop_last()), items.last())
    }
}

/// A running sink on a USB DAC.
pub open spec fn usb_running(s: SinkView) -> bool {
    s.is_running && (contains_seq(s.name, "usb"@) || contains_seq(s.name, "Chu2"@) || contains_seq(
        s.name,
        "DSP"@,
    ))
}

/// The sink the report shows: the first running USB sink, else the first
/// running sink, else the first sink.
pub open spec fn pick_sink(sinks: Seq<SinkView>) -> Option<SinkView> {
    match first_where(sinks, |s: SinkView| usb_running(s), 0) {
        Some(i) => Some(sinks[i]),
        None => match first_where(sinks, |s: SinkView| s.is_running, 0) {
            Some(i) => Some(sinks[i]),
            None => if sinks.len() > 0 {
                Some(sinks[0])
            } else {
                None
            },
        },
    }
}

/// The name a culprit is shown by: its application, else its binary, else its node.
pub open spec fn culprit_name(s: StreamView) -> Seq<char> {
    if s.app_name.len() > 0 {
        s.app_name
    } else if s.binary.len() > 0 {
        s.binary
    } else {
        s.name
    }
}

/// A process id as text, or `?`.
pub open spec fn pid_text(pid: Option<u64>) -> Seq<char> {
    match pid {
        Some(p) => dec_repr(p as nat),
        None => "?"@,
    }
}

/// The culprit a stream makes when the sink runs at `sink_rate`.
pub open spec fn culprit_of(s: StreamView, sink_rate: u32) -> CulpritView {
    let rate = match s.rate {
        Some(r) => r,
        None => sink_rate,
    };
    CulpritView {
        name: culprit_name(s),
        pid: s.pid,
        locking_rate: rate,
        description: culprit_name(s) + " (PID "@ + pid_text(s.pid) + ") is locking PipeWire graph at "@
            + sample_rate_text(rate),
    }
}

/// The culprits among `streams`: every running stream that is not MPV's.
pub open spec fn culprits_of(streams: Seq<StreamView>, sink_rate: u32) -> Seq<CulpritView>
    decreases streams.len(),
{
    if streams.len() == 0 {
        Seq::empty()
    } else {
        culprits_of(streams.drop_last(), sink_rate) + if !streams.last().is_mpv
            && streams.last().is_running {
            seq![culprit_of(streams.last(), sink_rate)]
        } else {
            Seq::empty()
        }
    }
}

/// The culprits of a report: only when the source rate is known and the
/// active sink runs at another known rate.
pub open spec fn culprits_for(target: Option<u32>, sink: Option<SinkView>, streams: Seq<StreamView>) -> Seq<CulpritView> {
    match (target, sink) {
        (Some(t), Some(s)) => match s.active_rate {
            Some(sr) => if sr != t {
                culprits_of(streams, sr)
            } else {
                Seq::empty()
            },
            None => Seq::empty(),
        },
        _ => Seq::empty(),
    }
}

/// The empty report.
pub open spec fn empty_report() -> ReportView {
    ReportView {
        active_sink: None,
        mpv_stream: None,
        all_active_streams: Seq::empty(),
        allowed_clock_rates: Seq::empty(),
        default_clock_rate: None,
        dsp_filters_active: Seq::empty(),
        culprits: Seq::empty(),
    }
}

/// The report `parse_pw_dump_json` gives for a dump and the source rate.
pub open spec fn pw_report(val: JsonValue, target: Option<u32>) -> ReportView {
    match val {
        JsonValue::Array(items) => {
            let st = scan(items@);
            let sink = pick_sink(st.sinks);
            ReportView {
                active_sink: sink,
                mpv_stream: st.mpv,
                all_active_streams: st.streams,
                allowed_clock_rates: st.allowed,
                default_clock_rate: st.default_rate,
                dsp_filters_active: st.filters,
                culprits: culprits_for(target, sink, st.streams),
            }
        },
        _ => empty_report(),
    }
}

// ---------------------------------------------------------------------------
// Reading the dump
// ---------------------------------------------------------------------------

/// The facts of a node, as owned values.
struct NodeRecord {
    id: u64,
    state: String,
    is_running: bool,
    media_class: String,
    node_name: String,
    node_desc: String,
    app_name: String,
    binary: String,
    pid: Option<u64>,
    rate: Option<u32>,
    format: Option<String>,
    channels: Option<u32>,
}

impl NodeRecord {
    spec fn facts(self) -> NodeFacts {
        NodeFacts {
            id: self.id,
            state: self.state@,
            is_running: self.is_running,
            media_class: self.media_class@,
            node_name: self.node_name@,
            node_desc: self.node_desc@,
            app_name: self.app_name@,
            binary: self.binary@,
            pid: self.pid,
            rate: self.rate,
            format: opt_view(self.format),
            channels: self.channels,
        }
    }
}

/// The text of an optional text, or `default`.
fn text_or(o: Option<&str>, default: &str) -> (r: String)
    ensures
        r@ == match o {
            Some(s) => s@,
            None => default@,
        },
{
    match o {
        Some(s) => to_string(s),
        None => to_string(default),
    }
}

/// An optional `u64` cut to `u32`.
fn to_u32_exec(o: Option<u64>) -> (r: Option<u32>)
    ensures
        r == to_u32(o),
{
    match o {
        Some(v) => Some(v as u32),
        None => None,
    }
}

/// An optional reference read as an optional value.
pub open spec fn deref_opt(o: Option<&JsonValue>) -> Option<JsonValue> {
    match o {
        Some(x) => Some(*x),
        None => None,
    }
}

/// The facts of a node item.
fn read_node(item: &JsonValue) -> (r: Option<NodeRecord>)
    ensures
        match node_facts(*item) {
            Some(n) => r matches Some(x) && x.facts() == n,
            None => r is None,
        },
{
    let info = match item.get("info") {
        Some(i) => i,
        None => return None,
    };
    let id: u64 = match u64_opt(item.get("id")) {
        Some(i) => i,
        None => 0,
    };
    let state = text_or(str_opt(info.get("state")), "unknown");
    let is_running = str_eq(state.as_str(), "running");
    let props = info.get("props");
    let media_class = text_or(str_opt(get_opt(props, "media.class")), "");
    let node_name = text_or(str_opt(get_opt(props, "node.name")), "");
    let node_desc = match str_opt(get_opt(props, "node.description")) {
        Some(d) => to_string(d),
        None => node_name.clone(),
    };
    let app_name = text_or(str_opt(get_opt(props, "application.name")), "");
    let binary = text_or(str_opt(get_opt(props, "application.process.binary")), "");
    let pid = u64_opt(get_opt(props, "application.process.id"));
    let fmt_arr = get_opt(info.get("params"), "Format");
    let first: Option<&JsonValue> = match fmt_arr {
        Some(fa) => match fa.as_array() {
            Some(a) => if a.len() > 0 {
                Some(&a[0])
            } else {
                None
            },
            None => None,
        },
        None => None,
    };
    proof {
        assert(deref_opt(first) == first_format(json_get(*item, "info"@)->0));
    }
    let rate0 = to_u32_exec(u64_opt(get_opt(first, "rate")));
    let rate = match rate0 {
        Some(r) => Some(r),
        None => to_u32_exec(u64_opt(get_opt(props, "audio.rate"))),
    };
    let format = match str_opt(get_opt(first, "format")) {
        Some(f) => Some(to_string(f)),
        None => None,
    };
    let channels = to_u32_exec(u64_opt(get_opt(first, "channels")));
    let rec = NodeRecord {
        id,
        state,
        is_running,
        media_class,
        node_name,
        node_desc,
        app_name,
        binary,
        pid,
        rate,
        format,
        channels,
    };
    proof {
        reveal_strlit("");
        let n = node_facts(*item)->0;
        let f = rec.facts();
        assert(f.id == n.id);
        assert(f.state == n.state);
        assert(f.is_running == n.is_running);
        assert(f.media_class == n.media_class);
        assert(f.node_name == n.node_name);
        assert(f.node_desc == n.node_desc);
        assert(f.app_name == n.app_name);
        assert(f.binary == n.binary);
        assert(f.pid == n.pid);
        assert(f.rate == n.rate);
        assert(f.format == n.format);
        assert(f.channels == n.channels);
    }
    Some(rec)
}

/// Whether a text mentions `p`.
fn mentions(s: &str, p: &str) -> (r: bool)
    ensures
        r == contains_seq(s@, p@),
{
    str_contains(s, p)
}

/// Whether a text mentions `mpv` in any case.
fn mentions_mpv(s: &str) -> (r: bool)
    ensures
        r == contains_seq(lowercase(s@), "mpv"@),
{
    let l = str_to_lowercase(s);
    str_contains(l.as_str(), "mpv")
}

/// A copy of an optional text.
fn copy_opt(o: &Option<String>) -> (r: Option<String>)
    ensures
        r == *o,
{
    match o {
        Some(s) => Some(s.clone()),
        None => None,
    }
}

impl PipeWireSink {
    /// A copy of this sink.
    pub fn copy(&self) -> (r: PipeWireSink)
        ensures
            r@ == self@,
    {
        PipeWireSink {
            id: self.id,
            name: self.name.clone(),
            description: self.description.clone(),
            state: self.state.clone(),
            active_rate: self.active_rate,
            format: copy_opt(&self.format),
            channels: self.channels,
            is_running: self.is_running,
        }
    }
}

impl PipeWireStream {
    /// A copy of this stream.
    pub fn copy(&self) -> (r: PipeWireStream)
        ensures
            r@ == self@,
    {
        PipeWireStream {
            id: self.id,
            name: self.name.clone(),
            app_name: self.app_name.clone(),
            binary: self.binary.clone(),
            pid: self.pid,
            rate: self.rate,
            format: copy_opt(&self.format),
            state: self.state.clone(),
            is_mpv: self.is_mpv,
            is_running: self.is_running,
        }
    }
}

/// What the reader has collected, as owned values.
struct Collected {
    allowed: Vec<u32>,
    default_rate: Option<u32>,
    filters: Vec<String>,
    sinks: Vec<PipeWireSink>,
    streams: Vec<PipeWireStream>,
    mpv: Option<PipeWireStream>,
}

impl Collected {
    spec fn state(self) -> ScanState {
        ScanState {
            allowed: self.allowed@,
            default_rate: self.default_rate,
            filters: self.filters@.map_values(|s: String| s@),
            sinks: self.sinks@.map_values(|s: PipeWireSink| s@),
            streams: self.streams@.map_values(|s: PipeWireStream| s@),
            mpv: match self.mpv {
                Some(s) => Some(s@),
                None => None,
            },
        }
    }
}

/// The sink of a node record.
fn sink_from(n: &NodeRecord) -> (r: PipeWireSink)
    ensures
        r@ == sink_of(n.facts()),
{
    PipeWireSink {
        id: n.id,
        name: n.node_name.clone(),
        description: n.node_desc.clone(),
        state: n.state.clone(),
        active_rate: n.rate,
        format: copy_opt(&n.format),
        channels: n.channels,
        is_running: n.is_running,
    }
}

/// Add what a node item says.
fn apply_node(c: &mut Collected, n: &NodeRecord)
    ensures
        final(c).state() == (ScanState {
            filters: if is_filter_node(n.facts()) && n.is_running {
                old(c).state().filters.push(n.node_desc@)
            } else {
                old(c).state().filters
            },
            sinks: if n.media_class@ == "Audio/Sink"@ {
                old(c).state().sinks.push(sink_of(n.facts()))
            } else {
                old(c).state().sinks
            },
            streams: if is_stream_node(n.facts()) && n.is_running {
                old(c).state().streams.push(stream_of(n.facts()))
            } else {
                old(c).state().streams
            },
            mpv: if is_stream_node(n.facts()) && is_mpv_node(n.facts()) {
                Some(stream_of(n.facts()))
            } else {
                old(c).state().mpv
            },
            ..old(c).state()
        }),
{
    let mc = n.media_class.as_str();
    let nm = n.node_name.as_str();
    let is_filter = mentions(mc, "Filter") || mentions(nm, "filter") || mentions(nm, "easyeffects")
        || mentions(nm, "lsp");
    if is_filter && n.is_running {
        c.filters.push(n.node_desc.clone());
    }
    if str_eq(mc, "Audio/Sink") {
        let sk = sink_from(n);
        c.sinks.push(sk);
    }
    let is_stream = str_eq(mc, "Stream/Output/Audio") || (!mentions(mc, "Sink") && !mentions(
        mc,
        "Source",
    ) && (!n.app_name.as_str().is_empty() || !n.binary.as_str().is_empty()));
    if is_stream {
        let is_mpv = mentions_mpv(n.app_name.as_str()) || mentions_mpv(n.binary.as_str())
            || mentions_mpv(nm);
        let stream = PipeWireStream {
            id: n.id,
            name: n.node_name.clone(),
            app_name: n.app_name.clone(),
            binary: n.binary.clone(),
            pid: n.pid,
            rate: n.rate,
            format: copy_opt(&n.format),
            state: n.state.clone(),
            is_mpv,
            is_running: n.is_running,
        };
        assert(stream@ == stream_of(n.facts()));
        if is_mpv {
            c.mpv = Some(stream.copy());
        }
        if n.is_running {
            c.streams.push(stream);
        }
    }
    proof {
        let o = old(c).state();
        let f = final(c).state();
        assert(f.filters =~= (if is_filter_node(n.facts()) && n.is_running {
            o.filters.push(n.node_desc@)
        } else {
            o.filters
        }));
        assert(f.sinks =~= (if n.media_class@ == "Audio/Sink"@ {
            o.sinks.push(sink_of(n.facts()))
        } else {
            o.sinks
        }));
        assert(f.streams =~= (if is_stream_node(n.facts()) && n.is_running {
            o.streams.push(stream_of(n.facts()))
        } else {
            o.streams
        }));
    }
}

/// Add what one dump item says.
fn apply_item(c: &mut Collected, item: &JsonValue)
    ensures
        final(c).state() == scan_step(old(c).state(), *item),
{
    proof {
        reveal_strlit("");
        reveal_strlit("PipeWire:Interface:Core");
        reveal_strlit("PipeWire:Interface:Node");
    }
    let tyv = item.get("type");
    let tys = str_opt(tyv);
    let ty: &str = match tys {
        Some(t) => t,
        None => "",
    };
    assert(deref_opt(tyv) == json_get(*item, "type"@));
    assert(ty@ == item_type(*item));
    let is_core = str_eq(ty, "PipeWire:Interface:Core");
    let is_node = str_eq(ty, "PipeWire:Interface:Node");
    proof {
        assert(is_core == (item_type(*item) == "PipeWire:Interface:Core"@));
        assert(is_node == (item_type(*item) == "PipeWire:Interface:Node"@));
    }
    if is_core {
        match get_opt(item.get("info"), "props") {
            Some(p) => {
                match str_opt(p.get("default.clock.allowed-rates")) {
                    Some(r) => {
                        c.allowed = parse_allowed_rates(r);
                    },
                    None => {},
                }
                match u64_opt(p.get("default.clock.rate")) {
                    Some(d) => {
                        c.default_rate = Some(d as u32);
                    },
                    None => {},
                }
            },
            None => {},
        }
    } else if is_node {
        match read_node(item) {
            Some(n) => {
                apply_node(c, &n);
            },
            None => {},
        }
    }
}

/// The index of the sink the report shows.
fn pick_sink_index(sinks: &Vec<PipeWireSink>) -> (r: Option<usize>)
    ensures
        match pick_sink(sinks@.map_values(|s: PipeWireSink| s@)) {
            Some(v) => r matches Some(i) && i < sinks@.len() && sinks@[i as int]@ == v,
            None => r is None,
        },
{
    let ghost sv = sinks@.map_values(|s: PipeWireSink| s@);
    let mut i: usize = 0;
    while i < sinks.len()
        invariant
            sv == sinks@.map_values(|s: PipeWireSink| s@),
            i <= sinks@.len(),
            forall|j: int| 0 <= j < i ==> !usb_running(#[trigger] sv[j]),
        decreases sinks@.len() - i,
    {
        let s = &sinks[i];
        if s.is_running && (mentions(s.name.as_str(), "usb") || mentions(s.name.as_str(), "Chu2")
            || mentions(s.name.as_str(), "DSP")) {
            proof {
                assert(usb_running(sv[i as int]));
                lemma_first_where_at(sv, |s: SinkView| usb_running(s), i as int);
            }
            return Some(i);
        }
        i = i + 1;
    }
    proof {
        lemma_first_where_none(sv, |s: SinkView| usb_running(s));
    }
    let mut i: usize = 0;
    while i < sinks.len()
        invariant
            sv == sinks@.map_values(|s: PipeWireSink| s@),
            i <= sinks@.len(),
            first_where(sv, |s: SinkView| usb_running(s), 0) is None,
            forall|j: int| 0 <= j < i ==> !(#[trigger] sv[j]).is_running,
        decreases sinks@.len() - i,
    {
        if sinks[i].is_running {
            proof {
                lemma_first_where_at(sv, |s: SinkView| s.is_running, i as int);
            }
            return Some(i);
        }
        i = i + 1;
    }
    proof {
        lemma_first_where_none(sv, |s: SinkView| s.is_running);
    }
    if sinks.len() > 0 {
        Some(0)
    } else {
        None
    }
}

/// The culprit a stream makes when the sink runs at `sink_rate`.
fn culprit_from(s: &PipeWireStream, sink_rate: u32) -> (r: CulpritClient)
    ensures
        r@ == culprit_of(s@, sink_rate),
{
    let name = if !s.app_name.as_str().is_empty() {
        s.app_name.clone()
    } else if !s.binary.as_str().is_empty() {
        s.binary.clone()
    } else {
        s.name.clone()
    };
    let rate: u32 = match s.rate {
        Some(r) => r,
        None => sink_rate,
    };
    let mut d: Vec<char> = Vec::new();
    push_str(&mut d, name.as_str());
    push_str(&mut d, " (PID ");
    match s.pid {
        Some(p) => push_dec(&mut d, p),
        None => push_str(&mut d, "?"),
    }
    push_str(&mut d, ") is locking PipeWire graph at ");
    let rt = format_sample_rate(rate);
    push_str(&mut d, rt.as_str());
    assert(d@ =~= culprit_of(s@, sink_rate).description);
    CulpritClient { name, pid: s.pid, locking_rate: rate, description: string_from_vec(d) }
}

/// The culprits among the streams.
fn collect_culprits(streams: &Vec<PipeWireStream>, sink_rate: u32) -> (r: Vec<CulpritClient>)
    ensures
        r@.map_values(|c: CulpritClient| c@) == culprits_of(
            streams@.map_values(|s: PipeWireStream| s@),
            sink_rate,
        ),
{
    let ghost sv = streams@.map_values(|s: PipeWireStream| s@);
    let mut out: Vec<CulpritClient> = Vec::new();
    let mut i: usize = 0;
    while i < streams.len()
        invariant
            sv == streams@.map_values(|s: PipeWireStream| s@),
            i <= streams@.len(),
            out@.map_values(|c: CulpritClient| c@) == culprits_of(sv.subrange(0, i as int), sink_rate),
        decreases streams@.len() - i,
    {
        let s = &streams[i];
        proof {
            assert(sv.subrange(0, i + 1).drop_last() =~= sv.subrange(0, i as int));
            assert(sv.subrange(0, i + 1).last() == s@);
        }
        if !s.is_mpv && s.is_running {
            let c = culprit_from(s, sink_rate);
            out.push(c);
        }
        i = i + 1;
        assert(out@.map_values(|c: CulpritClient| c@) =~= culprits_of(sv.subrange(0, i as int), sink_rate));
    }
    assert(sv.subrange(0, i as int) =~= sv);
    out
}

/// Reads the standard output of `pw-dump` as JSON and makes its graph
/// report; `None` where the output is not a JSON document.
pub fn parse_pw_dump_output(stdout: &[u8], target_source_rate: Option<u32>) -> (r: Option<PipeWireGraphReport>)
    ensures
        match json_document(stdout@) {
            Some(v) => r matches Some(x) && x@ == pw_report(v, target_source_rate),
            None => r is None,
        },
{
    match parse_json_document(stdout) {
        Some(v) => Some(parse_pw_dump_json(&v, target_source_rate)),
        None => None,
    }
}

/// Parses the JSON array returned by `pw-dump` into a graph report; with
/// `target_source_rate` it names the streams that hold the sink at another rate.
pub fn parse_pw_dump_json(val: &JsonValue, target_source_rate: Option<u32>) -> (r: PipeWireGraphReport)
    ensures
        r@ == pw_report(*val, target_source_rate),
{
    let items = match val.as_array() {
        Some(arr) => arr,
        None => {
            let r = PipeWireGraphReport {
                active_sink: None,
                mpv_stream: None,
                all_active_streams: Vec::new(),
                allowed_clock_rates: Vec::new(),
                default_clock_rate: None,
                dsp_filters_active: Vec::new(),
                culprits: Vec::new(),
            };
            assert(r@ =~= pw_report(*val, target_source_rate));
            return r;
        },
    };
    let mut c = Collected {
        allowed: Vec::new(),
        default_rate: None,
        filters: Vec::new(),
        sinks: Vec::new(),
        streams: Vec::new(),
        mpv: None,
    };
    proof {
        assert(c.state() =~= scan(items@.subrange(0, 0)));
    }
    let mut i: usize = 0;
    while i < items.len()
        invariant
            i <= items@.len(),
            c.state() == scan(items@.subrange(0, i as int)),
        decreases items@.len() - i,
    {
        apply_item(&mut c, &items[i]);
        proof {
            assert(items@.subrange(0, i + 1).drop_last() =~= items@.subrange(0, i as int));
        }
        i = i + 1;
    }
    assert(items@.subrange(0, i as int) =~= items@);
    let active_sink = match pick_sink_index(&c.sinks) {
        Some(k) => Some(c.sinks[k].copy()),
        None => None,
    };
    let culprits = match (target_source_rate, &active_sink) {
        (Some(target), Some(sink)) => match sink.active_rate {
            Some(sr) => if sr != target {
                collect_culprits(&c.streams, sr)
            } else {
                Vec::new()
            },
            None => Vec::new(),
        },
        _ => Vec::new(),
    };
    let r = PipeWireGraphReport {
        active_sink,
        mpv_stream: c.mpv,
        all_active_streams: c.streams,
        allowed_clock_rates: c.allowed,
        default_clock_rate: c.default_rate,
        dsp_filters_active: c.filters,
        culprits,
    };
    assert(r@.culprits =~= pw_report(*val, target_source_rate).culprits);
    r
}

// ---------------------------------------------------------------------------
// Laws of the report
// ---------------------------------------------------------------------------

proof fn lemma_scan_streams_running(items: Seq<JsonValue>)
    ensures
        forall|j: int| 0 <= j < scan(items).streams.len() ==> (#[trigger] scan(items).streams[j]).is_running,
    decreases items.len(),
{
    if items.len() > 0 {
        lemma_scan_streams_running(items.drop_last());
    }
}

proof fn lemma_culprits_of_origin(streams: Seq<StreamView>, sr: u32)
    ensures
        culprits_of(streams, sr).len() <= streams.len(),
        forall|k: int|
            0 <= k < culprits_of(streams, sr).len() ==> exists|j: int|
                0 <= j < streams.len() && !streams[j].is_mpv && streams[j].is_running
                    && #[trigger] culprits_of(streams, sr)[k] == culprit_of(streams[j], sr),
    decreases streams.len(),
{
    if streams.len() > 0 {
        let init = streams.drop_last();
        lemma_culprits_of_origin(init, sr);
        let c = culprits_of(streams, sr);
        let ci = culprits_of(init, sr);
        assert forall|k: int| 0 <= k < c.len() implies exists|j: int|
            0 <= j < streams.len() && !streams[j].is_mpv && streams[j].is_running
                && #[trigger] c[k] == culprit_of(streams[j], sr) by {
            if k < ci.len() {
                let j = choose|j: int|
                    0 <= j < init.len() && !init[j].is_mpv && init[j].is_running && #[trigger] ci[k]
                        == culprit_of(init[j], sr);
                assert(streams[j] == init[j]);
                assert(c[k] == ci[k]);
            } else {
                let j = streams.len() - 1;
                assert(streams[j] == streams.last());
            }
        }
    }
}

/// The `k`-th culprit of the report is a running stream that is not MPV's,
/// shown with the rate it locks the sink at.
pub open spec fn culprit_has_origin(rep: ReportView, k: int) -> bool {
    exists|j: int|
        0 <= j < rep.all_active_streams.len() && !(#[trigger] rep.all_active_streams[j]).is_mpv
            && rep.all_active_streams[j].is_running && rep.culprits[k] == culprit_of(
            rep.all_active_streams[j],
            rep.active_sink->0.active_rate->0,
        )
}

/// Culprits are reported only when the source rate is known and the active
/// sink runs at another known rate; each culprit is a running stream of the
/// graph that is not MPV's own, shown with the rate it locks the graph at.
pub proof fn lemma_culprits_come_from_rate_mismatch(val: JsonValue, target: Option<u32>)
    ensures
        pw_report(val, target).culprits.len() > 0 ==> (target matches Some(t) && pw_report(
            val,
            target,
        ).active_sink matches Some(s) && s.active_rate matches Some(sr) && sr != t),
        forall|k: int|
            0 <= k < pw_report(val, target).culprits.len() ==> #[trigger] culprit_has_origin(
                pw_report(val, target),
                k,
            ),
{
    match val {
        JsonValue::Array(items) => {
            let st = scan(items@);
            let sink = pick_sink(st.sinks);
            if let (Some(t), Some(sk)) = (target, sink) {
                if let Some(sr) = sk.active_rate {
                    if sr != t {
                        lemma_culprits_of_origin(st.streams, sr);
                        let rep = pw_report(val, target);
                        assert forall|k: int| 0 <= k < rep.culprits.len() implies #[trigger] culprit_has_origin(rep, k) by {
                            let j = choose|j: int|
                                0 <= j < st.streams.len() && !st.streams[j].is_mpv && st.streams[j].is_running
                                    && #[trigger] culprits_of(st.streams, sr)[k] == culprit_of(st.streams[j], sr);
                            assert(rep.all_active_streams[j] == st.streams[j]);
                        }
                    }
                }
            }
        },
        _ => {},
    }
}

/// Every stream in the list of active streams is running.
pub proof fn lemma_active_streams_are_running(val: JsonValue, target: Option<u32>)
    ensures
        forall|j: int|
            0 <= j < pw_report(val, target).all_active_streams.len() ==> (#[trigger] pw_report(
                val,
                target,
            ).all_active_streams[j]).is_running,
{
    match val {
        JsonValue::Array(items) => {
            lemma_scan_streams_running(items@);
        },
        _ => {},
    }
}

/// The sink a report shows, among the sinks of the dump in dump order: the
/// first running sink whose node name mentions `usb`, `Chu2` or `DSP`;
/// without one, the first running sink; without a running sink, the first
/// sink; none without sinks.
pub proof fn lemma_report_sink_choice(items: Vec<JsonValue>, target: Option<u32>)
    ensures
        ({
            let sinks = scan(items@).sinks;
            let shown = pw_report(JsonValue::Array(items), target).active_sink;
            &&& forall|k: int|
                0 <= k < sinks.len() && sinks[k].is_running && (contains_seq(sinks[k].name, "usb"@)
                    || contains_seq(sinks[k].name, "Chu2"@) || contains_seq(sinks[k].name, "DSP"@))
                    && (forall|m: int|
                    0 <= m < k ==> !((#[trigger] sinks[m]).is_running && (contains_seq(
                        sinks[m].name,
                        "usb"@,
                    ) || contains_seq(sinks[m].name, "Chu2"@) || contains_seq(sinks[m].name, "DSP"@))))
                    ==> shown == Some(sinks[k])
            &&& forall|k: int|
                0 <= k < sinks.len() && sinks[k].is_running && (forall|m: int|
                    0 <= m < sinks.len() ==> !((#[trigger] sinks[m]).is_running && (contains_seq(
                        sinks[m].name,
                        "usb"@,
                    ) || contains_seq(sinks[m].name, "Chu2"@) || contains_seq(sinks[m].name, "DSP"@))))
                    && (forall|m: int| 0 <= m < k ==> !(#[trigger] sinks[m]).is_running) ==> shown
                    == Some(sinks[k])
            &&& sinks.len() > 0 && (forall|m: int| 0 <= m < sinks.len() ==> !(#[trigger] sinks[m]).is_running)
                ==> shown == Some(sinks[0])
            &&& sinks.len() == 0 ==> shown is None
        }),
{
    let sinks = scan(items@).sinks;
    assert forall|k: int|
        0 <= k < sinks.len() && sinks[k].is_running && (contains_seq(sinks[k].name, "usb"@)
            || contains_seq(sinks[k].name, "Chu2"@) || contains_seq(sinks[k].name, "DSP"@)) && (forall|m: int|
            0 <= m < k ==> !((#[trigger] sinks[m]).is_running && (contains_seq(sinks[m].name, "usb"@)
                || contains_seq(sinks[m].name, "Chu2"@) || contains_seq(sinks[m].name, "DSP"@))))
        implies pick_sink(sinks) == Some(sinks[k]) by {
        lemma_first_where_at(sinks, |s: SinkView| usb_running(s), k);
    }
    assert forall|k: int|
        0 <= k < sinks.len() && sinks[k].is_running && (forall|m: int|
            0 <= m < sinks.len() ==> !((#[trigger] sinks[m]).is_running && (contains_seq(
                sinks[m].name,
                "usb"@,
            ) || contains_seq(sinks[m].name, "Chu2"@) || contains_seq(sinks[m].name, "DSP"@))))
            && (forall|m: int| 0 <= m < k ==> !(#[trigger] sinks[m]).is_running) implies pick_sink(sinks)
        == Some(sinks[k]) by {
        lemma_first_where_none(sinks, |s: SinkView| usb_running(s));
        lemma_first_where_at(sinks, |s: SinkView| s.is_running, k);
    }
    if forall|m: int| 0 <= m < sinks.len() ==> !(#[trigger] sinks[m]).is_running {
        lemma_first_where_none(sinks, |s: SinkView| usb_running(s));
        lemma_first_where_none(sinks, |s: SinkView| s.is_running);
    }
}

/// Reading one more item of the dump: a node whose media class is
/// `Audio/Sink` adds one sink at the end, with the node's id, name, rate and
/// state, running exactly when the state is `running`; any other item
/// leaves the sinks as they were.
pub proof fn lemma_scan_sinks_step(items: Seq<JsonValue>, item: JsonValue)
    ensures
        ({
            let before = scan(items).sinks;
            let after = scan(items.push(item)).sinks;
            if item_type(item) == "PipeWire:Interface:Node"@ && node_facts(item) is Some
                && node_facts(item)->0.media_class == "Audio/Sink"@ {
                let n = node_facts(item)->0;
                &&& after.len() == before.len() + 1
                &&& after.drop_last() == before
                &&& after.last().id == n.id
                &&& after.last().name == n.node_name
                &&& after.last().active_rate == n.rate
                &&& after.last().state == n.state
                &&& after.last().is_running == (n.state == "running"@)
            } else {
                after == before
            }
        }),
{
    assert(items.push(item).drop_last() =~= items);
    assert(items.push(item).last() == item);
    reveal_strlit("PipeWire:Interface:Core");
    reveal_strlit("PipeWire:Interface:Node");
    assert("PipeWire:Interface:Core"@[19] != "PipeWire:Interface:Node"@[19]);
    let st = scan(items);
    if item_type(item) == "PipeWire:Interface:Node"@ && node_facts(item) is Some
        && node_facts(item)->0.media_class == "Audio/Sink"@ {
        assert(st.sinks.push(sink_of(node_facts(item)->0)).drop_last() =~= st.sinks);
    }
}

} // verus!
