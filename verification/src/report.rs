//! The printed report of `reso inspect`: the three stages of the audio path
//! and the verdict, as plain text.
//!
//! MPV's volume is a floating-point percentage; the caller passes it already
//! written with one decimal.

use vstd::prelude::*;
use crate::alsa::{AlsaHwParams, CapsView, DacCapabilities, HwView, depths_in_order, rates_in_order, u32_lt, u8_lt};
use crate::seq_search::in_order;
use crate::status::{BitPerfectVerdict, PipelineStatus, StatusView, VerdictView, string_views};
use crate::text::{dec_repr, push_dec, push_str, string_from_vec};
use crate::util::{format_sample_rate, sample_rate_text};

verus! {

// ---------------------------------------------------------------------------
// Lists of numbers
// ---------------------------------------------------------------------------

/// The numbers in decimal, separated by `, `.
pub open spec fn joined_numbers(xs: Seq<nat>) -> Seq<char>
    decreases xs.len(),
{
    if xs.len() == 0 {
        Seq::empty()
    } else if xs.len() == 1 {
        dec_repr(xs[0])
    } else {
        joined_numbers(xs.drop_last()) + ", "@ + dec_repr(xs.last())
    }
}

/// A list of numbers in brackets, `[44100, 48000]`.
pub open spec fn number_list(xs: Seq<nat>) -> Seq<char> {
    "["@ + joined_numbers(xs) + "]"@
}

/// The values of a list of `u32`.
pub open spec fn nats_u32(v: Seq<u32>) -> Seq<nat> {
    v.map_values(|x: u32| x as nat)
}

/// The values of a list of `u8`.
pub open spec fn nats_u8(v: Seq<u8>) -> Seq<nat> {
    v.map_values(|x: u8| x as nat)
}

/// The values of a list of `u64`.
pub open spec fn nats_u64(v: Seq<u64>) -> Seq<nat> {
    v.map_values(|x: u64| x as nat)
}

/// Append the bracketed list of `xs` to `out`.
fn push_number_list(out: &mut Vec<char>, xs: &[u64])
    ensures
        final(out)@ == old(out)@ + number_list(nats_u64(xs@)),
{
    push_str(out, "[");
    let ghost base = out@;
    let mut i: usize = 0;
    while i < xs.len()
        invariant
            i <= xs@.len(),
            out@ == base + joined_numbers(nats_u64(xs@.subrange(0, i as int))),
        decreases xs@.len() - i,
    {
        proof {
            let t = nats_u64(xs@.subrange(0, i + 1));
            assert(t.drop_last() =~= nats_u64(xs@.subrange(0, i as int)));
            assert(t.last() == xs@[i as int] as nat);
        }
        if i > 0 {
            push_str(out, ", ");
        }
        push_dec(out, xs[i]);
        i = i + 1;
        proof {
            let t = nats_u64(xs@.subrange(0, i as int));
            if i == 1 {
                assert(joined_numbers(t) == dec_repr(t[0]));
                assert(nats_u64(xs@.subrange(0, 0)) =~= Seq::<nat>::empty());
            }
            assert(out@ =~= base + joined_numbers(t));
        }
    }
    assert(xs@.subrange(0, i as int) =~= xs@);
    push_str(out, "]");
    assert(final(out)@ =~= old(out)@ + number_list(nats_u64(xs@)));
}

/// The `u32` values as `u64`.
fn widen_u32(v: &Vec<u32>) -> (r: Vec<u64>)
    ensures
        nats_u64(r@) == nats_u32(v@),
{
    let mut out: Vec<u64> = Vec::new();
    let mut i: usize = 0;
    while i < v.len()
        invariant
            i <= v@.len(),
            out@.len() == i,
            forall|j: int| 0 <= j < i ==> out@[j] == v@[j] as u64,
        decreases v@.len() - i,
    {
        out.push(v[i] as u64);
        i = i + 1;
    }
    assert(nats_u64(out@) =~= nats_u32(v@));
    out
}

/// The `u8` values as `u64`.
fn widen_u8(v: &Vec<u8>) -> (r: Vec<u64>)
    ensures
        nats_u64(r@) == nats_u8(v@),
{
    let mut out: Vec<u64> = Vec::new();
    let mut i: usize = 0;
    while i < v.len()
        invariant
            i <= v@.len(),
            out@.len() == i,
            forall|j: int| 0 <= j < i ==> out@[j] == v@[j] as u64,
        decreases v@.len() - i,
    {
        out.push(v[i] as u64);
        i = i + 1;
    }
    assert(nats_u64(out@) =~= nats_u8(v@));
    out
}

// ---------------------------------------------------------------------------
// Lists of names
// ---------------------------------------------------------------------------

/// A list of names as `{:?}` writes a `Vec<String>`: in brackets, each name
/// quoted with its special characters escaped (`str::escape_debug`).
pub uninterp spec fn debug_list_text(v: Seq<Seq<char>>) -> Seq<char>;

/// `format!("{:?}", v)` on a list of strings: the result is named
/// `debug_list_text` of the strings.
#[verifier::external_body]
fn debug_list(v: &Vec<String>) -> (r: String)
    ensures
        r@ == debug_list_text(string_views(v@)),
{
    format!("{:?}", v)
}

// ---------------------------------------------------------------------------
// The report
// ---------------------------------------------------------------------------

/// The text of an optional value, or `d` without one.
pub open spec fn text_or(o: Option<Seq<char>>, d: Seq<char>) -> Seq<char> {
    match o {
        Some(t) => t,
        None => d,
    }
}

/// An optional number, or 0.
pub open spec fn or_zero(o: Option<u32>) -> u32 {
    match o {
        Some(x) => x,
        None => 0,
    }
}

/// A line of `=` closing a block of the report.
pub open spec fn report_rule() -> Seq<char> {
    "=================================================================\n"@
}

/// The title of the report.
pub open spec fn report_head() -> Seq<char> {
    report_rule() + "               RESO AUDIOPHILE PIPELINE INSPECTOR                \n"@
        + report_rule() + "\n"@
}

/// The stream source stage, with MPV's volume written as `vol`.
pub open spec fn source_section(s: StatusView, vol: Seq<char>) -> Seq<char> {
    "1. STREAM SOURCE (MPV DECODER)\n"@ + "   Codec:        "@ + (if s.source_codec.len() == 0 {
        "None"@
    } else {
        s.source_codec
    }) + "\n"@ + "   Sample Rate:  "@ + sample_rate_text(s.source_rate) + "\n"@ + "   Bit Depth:    "@
        + match s.source_bit_depth {
        Some(b) => dec_repr(b as nat) + "-bit"@,
        None => "16/24-bit VBR"@,
    } + "\n"@ + "   Channels:     "@ + dec_repr(
        if s.source_channels == 0 {
            2
        } else {
            s.source_channels as nat
        },
    ) + "\n"@ + "   MPV Volume:   "@ + vol + "% (Bit-perfect requires 100%)\n\n"@
}

/// The lines of the active PipeWire sink.
pub open spec fn sink_lines(s: StatusView) -> Seq<char> {
    match s.pw_sink {
        Some(k) => "   Sink Node:    "@ + k.description + " ["@ + k.name + "]\n"@ + "   Sink Rate:    "@
            + sample_rate_text(or_zero(s.pw_sink_rate)) + "\n"@ + "   Sink Format:  "@ + text_or(
            k.format,
            "Native"@,
        ) + "\n"@,
        None => "   Sink Node:    None detected\n"@,
    }
}

/// The line of the DSP filters.
pub open spec fn dsp_line(filters: Seq<Seq<char>>) -> Seq<char> {
    if filters.len() > 0 {
        "   DSP Filters:  WARNING: "@ + debug_list_text(filters) + "\n"@
    } else {
        "   DSP Filters:  None (Bit-exact path)\n"@
    }
}

/// The PipeWire stage: the sink, the allowed rates and the DSP filters.
pub open spec fn pipewire_section(s: StatusView) -> Seq<char> {
    "2. PIPEWIRE AUDIO GRAPH\n"@ + sink_lines(s) + "   Allowed Rates: "@ + number_list(
        nats_u32(s.pw_allowed_rates),
    ) + "\n"@ + dsp_line(s.pw_dsp_filters) + "\n"@
}

/// The lines of the hardware parameters, when known.
pub open spec fn hw_lines(o: Option<HwView>) -> Seq<char> {
    match o {
        Some(h) => "   ALSA Status:  "@ + (if h.is_active {
            "Active (Running)"@
        } else {
            "Idle / Suspended"@
        }) + "\n"@ + "   HW Rate:      "@ + sample_rate_text(or_zero(h.rate)) + "\n"@
            + "   HW Format:    "@ + text_or(h.format, "Unknown"@) + "\n"@ + "   Buffer Size:  "@
            + dec_repr(or_zero(h.buffer_size) as nat) + " periods\n"@,
        None => Seq::empty(),
    }
}

/// The lines of the DAC's capabilities, when known: its rates and depths
/// listed in increasing order.
pub open spec fn caps_lines(o: Option<CapsView>) -> Seq<char> {
    match o {
        Some(c) => "   DAC Supported Rates:  "@ + number_list(
            nats_u32(in_order(c.supported_rates, u32_lt())),
        ) + "\n"@ + "   DAC Supported Depths: "@ + number_list(
            nats_u8(in_order(c.supported_bit_depths, u8_lt())),
        ) + " bits\n"@,
        None => Seq::empty(),
    }
}

/// The hardware stage: the card, its parameters and its capabilities.
pub open spec fn alsa_section(s: StatusView) -> Seq<char> {
    "3. HARDWARE DAC / ALSA\n"@ + "   DAC Device:   "@ + text_or(s.alsa_card_name, "Unknown"@) + "\n"@
        + hw_lines(s.alsa_hw_params) + caps_lines(s.dac_capabilities) + "\n"@
}

/// The verdict, with MPV's volume written as `vol`.
pub open spec fn verdict_section(s: StatusView, vol: Seq<char>) -> Seq<char> {
    report_rule() + match s.verdict {
        Some(VerdictView::NativeBitPerfect) => " STATUS: [ PASS ] \u{2713} BIT-PERFECT DIRECT PLAYBACK\n"@
            + " Native source rate matches PipeWire sink and hardware DAC clocks.\n"@,
        Some(VerdictView::Resampled { source_rate, sink_rate, culprit }) =>
            " STATUS: [ WARNING ] \u{26a0} RESAMPLING DETECTED\n"@ + " Stream ("@ + dec_repr(
            source_rate as nat,
        ) + " Hz) is being resampled to ("@ + dec_repr(sink_rate as nat) + " Hz).\n"@
            + match culprit {
            Some(c) => " CULPRIT: "@ + c.description + "\n"@,
            None => Seq::empty(),
        },
        Some(VerdictView::VolumeDegraded { .. }) =>
            " STATUS: [ WARNING ] \u{26a0} MPV SOFTWARE VOLUME ACTIVE\n"@ + " MPV volume is at "@ + vol
            + "%. Set MPV volume to 100% to avoid truncating bit depth.\n"@
            + " Adjust listening volume using hardware PipeWire control (`wpctl`).\n"@,
        Some(VerdictView::DspFilterActive { filters }) =>
            " STATUS: [ WARNING ] \u{26a0} ACTIVE DSP / EQUALIZER DETECTED\n"@
            + " PipeWire software filters active: "@ + debug_list_text(filters) + "\n"@,
        _ => " STATUS: [ IDLE ] Audio pipeline is currently paused or stopped.\n"@,
    } + report_rule()
}

/// The report of `reso inspect` for the status `s`, MPV's volume written as `vol`.
pub open spec fn cli_report(s: StatusView, vol: Seq<char>) -> Seq<char> {
    report_head() + source_section(s, vol) + pipewire_section(s) + alsa_section(s) + verdict_section(
        s,
        vol,
    )
}

/// Append the decimal of `n` to `out`.
fn push_u32(out: &mut Vec<char>, n: u32)
    ensures
        final(out)@ == old(out)@ + dec_repr(n as nat),
{
    push_dec(out, n as u64);
}

/// Append a `String` to `out`.
fn push_string(out: &mut Vec<char>, s: &String)
    ensures
        final(out)@ == old(out)@ + s@,
{
    push_str(out, s.as_str());
}

/// Append the sample rate text of `hz` to `out`.
fn push_rate(out: &mut Vec<char>, hz: u32)
    ensures
        final(out)@ == old(out)@ + sample_rate_text(hz),
{
    let t = format_sample_rate(hz);
    push_str(out, t.as_str());
}

impl PipelineStatus {
    /// Append the source stage.
    #[verifier::rlimit(100)]
    #[verifier::spinoff_prover]
    fn push_source(&self, out: &mut Vec<char>, vol: &str)
        ensures
            final(out)@ == old(out)@ + source_section(self@, vol@),
    {
        let ghost o = out@;
        push_str(out, "1. STREAM SOURCE (MPV DECODER)\n");
        push_str(out, "   Codec:        ");
        if crate::text::chars_of(self.source_codec.as_str()).len() == 0 {
            push_str(out, "None");
        } else {
            push_string(out, &self.source_codec);
        }
        push_str(out, "\n");
        push_str(out, "   Sample Rate:  ");
        push_rate(out, self.source_rate);
        push_str(out, "\n");
        push_str(out, "   Bit Depth:    ");
        match self.source_bit_depth {
            Some(b) => {
                push_dec(out, b as u64);
                push_str(out, "-bit");
            },
            None => {
                push_str(out, "16/24-bit VBR");
            },
        }
        push_str(out, "\n");
        push_str(out, "   Channels:     ");
        if self.source_channels == 0 {
            push_dec(out, 2);
        } else {
            push_u32(out, self.source_channels);
        }
        push_str(out, "\n");
        push_str(out, "   MPV Volume:   ");
        push_str(out, vol);
        push_str(out, "% (Bit-perfect requires 100%)\n\n");
        assert(out@ =~= o + source_section(self@, vol@));
    }

    /// Append the lines of the active sink.
    #[verifier::rlimit(50)]
    fn push_sink_lines(&self, out: &mut Vec<char>)
        ensures
            final(out)@ == old(out)@ + sink_lines(self@),
    {
        let ghost o = out@;
        match &self.pw_sink {
            Some(k) => {
                push_str(out, "   Sink Node:    ");
                push_string(out, &k.description);
                push_str(out, " [");
                push_string(out, &k.name);
                push_str(out, "]\n");
                push_str(out, "   Sink Rate:    ");
                let r = match self.pw_sink_rate {
                    Some(x) => x,
                    None => 0,
                };
                push_rate(out, r);
                push_str(out, "\n");
                push_str(out, "   Sink Format:  ");
                match &k.format {
                    Some(f) => push_string(out, f),
                    None => push_str(out, "Native"),
                }
                push_str(out, "\n");
            },
            None => {
                push_str(out, "   Sink Node:    None detected\n");
            },
        }
        assert(out@ =~= o + sink_lines(self@));
    }

    /// Append the PipeWire stage.
    fn push_pipewire(&self, out: &mut Vec<char>)
        ensures
            final(out)@ == old(out)@ + pipewire_section(self@),
    {
        let ghost o = out@;
        push_str(out, "2. PIPEWIRE AUDIO GRAPH\n");
        self.push_sink_lines(out);
        push_str(out, "   Allowed Rates: ");
        let rates = widen_u32(&self.pw_allowed_rates);
        push_number_list(out, rates.as_slice());
        push_str(out, "\n");
        let ghost before_dsp = out@;
        if self.pw_dsp_filters.len() > 0 {
            push_str(out, "   DSP Filters:  WARNING: ");
            let d = debug_list(&self.pw_dsp_filters);
            push_string(out, &d);
            push_str(out, "\n");
        } else {
            push_str(out, "   DSP Filters:  None (Bit-exact path)\n");
        }
        assert(out@ =~= before_dsp + dsp_line(self@.pw_dsp_filters));
        push_str(out, "\n");
        assert(out@ =~= o + pipewire_section(self@));
    }

    /// Append the lines of the hardware parameters.
    #[verifier::rlimit(50)]
    fn push_hw_lines(out: &mut Vec<char>, hw: &Option<AlsaHwParams>)
        ensures
            final(out)@ == old(out)@ + hw_lines(
                match hw {
                    Some(h) => Some(h@),
                    None => None,
                },
            ),
    {
        let ghost o = out@;
        match hw {
            Some(h) => {
                push_str(out, "   ALSA Status:  ");
                if h.is_active {
                    push_str(out, "Active (Running)");
                } else {
                    push_str(out, "Idle / Suspended");
                }
                push_str(out, "\n");
                push_str(out, "   HW Rate:      ");
                let r = match h.rate {
                    Some(x) => x,
                    None => 0,
                };
                push_rate(out, r);
                push_str(out, "\n");
                push_str(out, "   HW Format:    ");
                match &h.format {
                    Some(f) => push_string(out, f),
                    None => push_str(out, "Unknown"),
                }
                push_str(out, "\n");
                push_str(out, "   Buffer Size:  ");
                let b = match h.buffer_size {
                    Some(x) => x,
                    None => 0,
                };
                push_u32(out, b);
                push_str(out, " periods\n");
                assert(out@ =~= o + hw_lines(Some(h@)));
            },
            None => {
                assert(out@ =~= o + hw_lines(None));
            },
        }
    }

    /// Append the lines of the DAC's capabilities.
    fn push_caps_lines(out: &mut Vec<char>, caps: &Option<DacCapabilities>)
        ensures
            final(out)@ == old(out)@ + caps_lines(
                match caps {
                    Some(c) => Some(c@),
                    None => None,
                },
            ),
    {
        let ghost o = out@;
        match caps {
            Some(c) => {
                push_str(out, "   DAC Supported Rates:  ");
                let rs = rates_in_order(&c.supported_rates);
                let rs64 = widen_u32(&rs);
                push_number_list(out, rs64.as_slice());
                push_str(out, "\n");
                push_str(out, "   DAC Supported Depths: ");
                let ds = depths_in_order(&c.supported_bit_depths);
                let ds64 = widen_u8(&ds);
                push_number_list(out, ds64.as_slice());
                push_str(out, " bits\n");
                assert(out@ =~= o + caps_lines(Some(c@)));
            },
            None => {
                assert(out@ =~= o + caps_lines(None));
            },
        }
    }

    /// Append the hardware stage.
    fn push_alsa(&self, out: &mut Vec<char>)
        ensures
            final(out)@ == old(out)@ + alsa_section(self@),
    {
        let ghost o = out@;
        push_str(out, "3. HARDWARE DAC / ALSA\n");
        push_str(out, "   DAC Device:   ");
        match &self.alsa_card_name {
            Some(n) => push_string(out, n),
            None => push_str(out, "Unknown"),
        }
        push_str(out, "\n");
        Self::push_hw_lines(out, &self.alsa_hw_params);
        Self::push_caps_lines(out, &self.dac_capabilities);
        push_str(out, "\n");
        assert(out@ =~= o + alsa_section(self@));
    }

    /// Append the verdict.
    fn push_verdict(&self, out: &mut Vec<char>, vol: &str)
        ensures
            final(out)@ == old(out)@ + verdict_section(self@, vol@),
    {
        let ghost o = out@;
        push_str(out, "=================================================================\n");
        match &self.verdict {
            Some(BitPerfectVerdict::NativeBitPerfect) => {
                push_str(out, " STATUS: [ PASS ] \u{2713} BIT-PERFECT DIRECT PLAYBACK\n");
                push_str(out, " Native source rate matches PipeWire sink and hardware DAC clocks.\n");
            },
            Some(BitPerfectVerdict::Resampled { source_rate, sink_rate, culprit }) => {
                push_str(out, " STATUS: [ WARNING ] \u{26a0} RESAMPLING DETECTED\n");
                push_str(out, " Stream (");
                push_u32(out, *source_rate);
                push_str(out, " Hz) is being resampled to (");
                push_u32(out, *sink_rate);
                push_str(out, " Hz).\n");
                match culprit {
                    Some(c) => {
                        push_str(out, " CULPRIT: ");
                        push_string(out, &c.description);
                        push_str(out, "\n");
                    },
                    None => {},
                }
            },
            Some(BitPerfectVerdict::VolumeDegraded { .. }) => {
                push_str(out, " STATUS: [ WARNING ] \u{26a0} MPV SOFTWARE VOLUME ACTIVE\n");
                push_str(out, " MPV volume is at ");
                push_str(out, vol);
                push_str(out, "%. Set MPV volume to 100% to avoid truncating bit depth.\n");
                push_str(out, " Adjust listening volume using hardware PipeWire control (`wpctl`).\n");
            },
            Some(BitPerfectVerdict::DspFilterActive { filters }) => {
                push_str(out, " STATUS: [ WARNING ] \u{26a0} ACTIVE DSP / EQUALIZER DETECTED\n");
                push_str(out, " PipeWire software filters active: ");
                let d = debug_list(filters);
                push_string(out, &d);
                push_str(out, "\n");
            },
            _ => {
                push_str(out, " STATUS: [ IDLE ] Audio pipeline is currently paused or stopped.\n");
            },
        }
        push_str(out, "=================================================================\n");
        assert(out@ =~= o + verdict_section(self@, vol@));
    }

    /// Generates a clean human-readable diagnostic summary string for CLI
    /// inspect; `mpv_volume_text` is MPV's volume written with one decimal.
    pub fn format_cli_report(&self, mpv_volume_text: &str) -> (r: String)
        ensures
            r@ == cli_report(self@, mpv_volume_text@),
    {
        let mut out: Vec<char> = Vec::new();
        push_str(&mut out, "=================================================================\n");
        push_str(&mut out, "               RESO AUDIOPHILE PIPELINE INSPECTOR                \n");
        push_str(&mut out, "=================================================================\n");
        push_str(&mut out, "\n");
        self.push_source(&mut out, mpv_volume_text);
        self.push_pipewire(&mut out);
        self.push_alsa(&mut out);
        self.push_verdict(&mut out, mpv_volume_text);
        assert(out@ =~= cli_report(self@, mpv_volume_text@));
        string_from_vec(out)
    }
}

} // verus!
