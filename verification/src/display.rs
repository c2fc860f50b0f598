//! What the dashboard shows, as texts and tones: rate labels and chips, the
//! header badges, the verdict banner, the stage cards' fields. Drawing them
//! on the terminal is done around this module.

use vstd::prelude::*;
use crate::alsa::AlsaHwParams;
use crate::pipewire::CulpritClient;
use crate::status::{BitPerfectVerdict, VerdictView};
use crate::text::{dec_repr, push_dec, push_str, string_from_vec, to_string};
use crate::util::{
    duration_text, format_duration, one_decimal, push_one_decimal, sample_rate_text, format_sample_rate,
    tenths_exec, tenths_of_thousandths,
};

verus! {

/// How a shown value is toned.
#[derive(Debug, Clone, Copy, PartialEq, Eq, Structural)]
pub enum Tone {
    /// As it should be (green).
    Good,
    /// Worth a look (yellow).
    Warn,
    /// Wrong for bit-perfect playback (red).
    Alert,
    /// Nothing to report (dark gray).
    Muted,
}

// ---------------------------------------------------------------------------
// Rates
// ---------------------------------------------------------------------------

/// A rate in kHz as a chip label: `48k` for whole kilohertz, else one decimal, `44.1k`.
pub open spec fn rate_label_of(rate: u32) -> Seq<char> {
    if rate % 1000 == 0 {
        dec_repr((rate / 1000) as nat) + "k"@
    } else {
        one_decimal(tenths_of_thousandths(rate as nat)) + "k"@
    }
}

/// A rate in kHz as a chip label.
pub fn rate_label(rate: u32) -> (r: String)
    ensures
        r@ == rate_label_of(rate),
{
    let mut out: Vec<char> = Vec::new();
    if rate % 1000 == 0 {
        push_dec(&mut out, (rate / 1000) as u64);
    } else {
        let t = tenths_exec(rate);
        push_one_decimal(&mut out, t);
    }
    push_str(&mut out, "k");
    assert(out@ =~= rate_label_of(rate));
    string_from_vec(out)
}

/// The labels of the rates, joined by `, `.
pub open spec fn joined_labels(rates: Seq<u32>) -> Seq<char>
    decreases rates.len(),
{
    if rates.len() == 0 {
        Seq::empty()
    } else if rates.len() == 1 {
        rate_label_of(rates[0])
    } else {
        joined_labels(rates.drop_last()) + ", "@ + rate_label_of(rates.last())
    }
}

/// The clock rates the graph allows, as shown: their labels joined, or
/// `Dynamic rates` when the graph lists none.
pub open spec fn allowed_rates_text_of(rates: Seq<u32>) -> Seq<char> {
    if rates.len() == 0 {
        "Dynamic rates"@
    } else {
        joined_labels(rates)
    }
}

/// The clock rates the graph allows, as shown.
pub fn allowed_rates_text(rates: &Vec<u32>) -> (r: String)
    ensures
        r@ == allowed_rates_text_of(rates@),
{
    if rates.len() == 0 {
        return to_string("Dynamic rates");
    }
    let mut out: Vec<char> = Vec::new();
    let mut i: usize = 0;
    assert(rates@.subrange(0, 0) =~= Seq::<u32>::empty());
    while i < rates.len()
        invariant
            i <= rates@.len(),
            out@ == joined_labels(rates@.subrange(0, i as int)),
        decreases rates@.len() - i,
    {
        if i > 0 {
            push_str(&mut out, ", ");
        }
        let l = rate_label(rates[i]);
        push_str(&mut out, l.as_str());
        proof {
            let s1 = rates@.subrange(0, i + 1);
            assert(s1.drop_last() =~= rates@.subrange(0, i as int));
            assert(s1.last() == rates@[i as int]);
            if i == 0 {
                assert(s1[0] == rates@[0]);
                assert(out@ =~= rate_label_of(rates@[0]));
            } else {
                assert(out@ =~= joined_labels(rates@.subrange(0, i as int)) + ", "@ + rate_label_of(
                    rates@[i as int],
                ));
            }
        }
        i = i + 1;
    }
    assert(rates@.subrange(0, i as int) =~= rates@);
    to_string_chars(out)
}

/// A `String` of the characters `v`.
fn to_string_chars(v: Vec<char>) -> (r: String)
    ensures
        r@ == v@,
{
    string_from_vec(v)
}

/// How a clock rate compares with the source rate: good when it is the
/// source rate of a playing stream, worth a look when it is another known
/// rate, nothing when unknown.
pub open spec fn rate_tone_of(rate: u32, source: u32) -> Tone {
    if rate == source && source > 0 {
        Tone::Good
    } else if rate > 0 {
        Tone::Warn
    } else {
        Tone::Muted
    }
}

/// A clock rate shows as good exactly when a stream plays at that rate, as
/// a warning when it is any other known rate, and muted when it is unknown (0).
pub proof fn lemma_rate_tone_meaning(rate: u32, source: u32)
    ensures
        (rate_tone_of(rate, source) == Tone::Good) <==> (rate == source && source > 0),
        (rate_tone_of(rate, source) == Tone::Warn) <==> (rate > 0 && !(rate == source && source
            > 0)),
        (rate_tone_of(rate, source) == Tone::Muted) <==> rate == 0,
{
}

/// How a clock rate compares with the source rate.
pub fn rate_tone(rate: u32, source: u32) -> (r: Tone)
    ensures
        r == rate_tone_of(rate, source),
{
    if rate == source && source > 0 {
        Tone::Good
    } else if rate > 0 {
        Tone::Warn
    } else {
        Tone::Muted
    }
}

/// A rate chip of the capability matrix is the active one: the hardware runs at that rate.
pub fn chip_active(rate: u32, hw_rate: u32) -> (r: bool)
    ensures
        r == (rate == hw_rate && hw_rate > 0),
{
    rate == hw_rate && hw_rate > 0
}

// ---------------------------------------------------------------------------
// Stage card fields
// ---------------------------------------------------------------------------

/// The DSP path as shown: `None (Bit-exact)`, or `Active (n)` for n filters.
pub open spec fn dsp_text_of(n: nat) -> Seq<char> {
    if n == 0 {
        "None (Bit-exact)"@
    } else {
        "Active ("@ + dec_repr(n) + ")"@
    }
}

/// The DSP path as shown for the active filters.
pub fn dsp_text(filters: &Vec<String>) -> (r: String)
    ensures
        r@ == dsp_text_of(filters@.len()),
{
    if filters.len() == 0 {
        to_string("None (Bit-exact)")
    } else {
        let mut out: Vec<char> = Vec::new();
        push_str(&mut out, "Active (");
        push_dec(&mut out, filters.len() as u64);
        push_str(&mut out, ")");
        assert(out@ =~= dsp_text_of(filters@.len()));
        string_from_vec(out)
    }
}

/// The channel count as shown: `2 (Stereo)` when unknown, else `n ch`.
pub open spec fn channels_text_of(ch: u32) -> Seq<char> {
    if ch == 0 {
        "2 (Stereo)"@
    } else {
        dec_repr(ch as nat) + " ch"@
    }
}

/// The channel count as shown.
pub fn channels_text(ch: u32) -> (r: String)
    ensures
        r@ == channels_text_of(ch),
{
    if ch == 0 {
        to_string("2 (Stereo)")
    } else {
        let mut out: Vec<char> = Vec::new();
        push_dec(&mut out, ch as u64);
        push_str(&mut out, " ch");
        assert(out@ =~= channels_text_of(ch));
        string_from_vec(out)
    }
}

/// The bit depth as shown: `n-bit`, or `16/24-bit` when unknown.
pub open spec fn bit_depth_text_of(b: Option<u8>) -> Seq<char> {
    match b {
        Some(d) => dec_repr(d as nat) + "-bit"@,
        None => "16/24-bit"@,
    }
}

/// The bit depth as shown.
pub fn bit_depth_text(b: Option<u8>) -> (r: String)
    ensures
        r@ == bit_depth_text_of(b),
{
    match b {
        Some(d) => {
            let mut out: Vec<char> = Vec::new();
            push_dec(&mut out, d as u64);
            push_str(&mut out, "-bit");
            assert(out@ =~= bit_depth_text_of(b));
            string_from_vec(out)
        },
        None => to_string("16/24-bit"),
    }
}

/// The buffer as shown: `period/buffer` sizes (0 when unknown), or `—` without parameters.
pub open spec fn buffer_text_of(p: Option<(Option<u32>, Option<u32>)>) -> Seq<char> {
    match p {
        Some((ps, bs)) => dec_repr(
            match ps {
                Some(x) => x as nat,
                None => 0,
            },
        ) + "/"@ + dec_repr(
            match bs {
                Some(x) => x as nat,
                None => 0,
            },
        ),
        None => seq!['\u{2014}'],
    }
}

/// The buffer of the hardware parameters as shown.
pub fn buffer_text(hw: Option<&AlsaHwParams>) -> (r: String)
    ensures
        r@ == buffer_text_of(
            match hw {
                Some(h) => Some((h.period_size, h.buffer_size)),
                None => None,
            },
        ),
{
    match hw {
        Some(h) => {
            let mut out: Vec<char> = Vec::new();
            push_dec(
                &mut out,
                match h.period_size {
                    Some(x) => x as u64,
                    None => 0,
                },
            );
            push_str(&mut out, "/");
            push_dec(
                &mut out,
                match h.buffer_size {
                    Some(x) => x as u64,
                    None => 0,
                },
            );
            assert(out@ =~= buffer_text_of(Some((h.period_size, h.buffer_size))));
            string_from_vec(out)
        },
        None => {
            let mut out: Vec<char> = Vec::new();
            out.push('\u{2014}');
            string_from_vec(out)
        },
    }
}

// ---------------------------------------------------------------------------
// Header badges and the verdict banner
// ---------------------------------------------------------------------------

/// The recording badge is drawn bright on this tick (it pulses every 5 ticks).
pub fn record_pulse_bright(tick_count: u64) -> (r: bool)
    ensures
        r == ((tick_count / 5) % 2 == 0),
{
    (tick_count / 5) % 2 == 0
}

/// The sleep timer badge: an hourglass and the time left.
pub open spec fn sleep_badge_of(secs: u64) -> Seq<char> {
    " \u{23f3}"@ + duration_text(secs as nat) + " "@
}

/// The sleep timer badge.
pub fn sleep_badge(secs: u64) -> (r: String)
    ensures
        r@ == sleep_badge_of(secs),
{
    let mut out: Vec<char> = Vec::new();
    push_str(&mut out, " \u{23f3}");
    let d = format_duration(secs);
    push_str(&mut out, d.as_str());
    push_str(&mut out, " ");
    string_from_vec(out)
}

/// The verdict badge of the header, and its tone.
pub open spec fn verdict_badge_of(v: Option<VerdictView>, source_rate: u32) -> (Seq<char>, Tone) {
    match v {
        Some(VerdictView::NativeBitPerfect) => (
            " [\u{2713} BIT-PERFECT: "@ + sample_rate_text(source_rate) + "] "@,
            Tone::Good,
        ),
        Some(VerdictView::Resampled { source_rate: s, sink_rate: k, .. }) => (
            " [\u{26a0} RESAMPLED: "@ + sample_rate_text(s) + "\u{2192}"@ + sample_rate_text(k)
                + "] "@,
            Tone::Warn,
        ),
        Some(VerdictView::VolumeDegraded { .. }) => (" [\u{26a0} VOL < 100%] "@, Tone::Warn),
        Some(VerdictView::DspFilterActive { .. }) => (" [\u{26a0} DSP ACTIVE] "@, Tone::Alert),
        _ => (" [STANDBY] "@, Tone::Muted),
    }
}

/// The view of an optional verdict.
pub open spec fn verdict_opt(v: Option<&BitPerfectVerdict>) -> Option<VerdictView> {
    match v {
        Some(x) => Some(x@),
        None => None,
    }
}

/// The verdict badge of the header, and its tone.
pub fn verdict_badge(v: Option<&BitPerfectVerdict>, source_rate: u32) -> (r: (String, Tone))
    ensures
        (r.0@, r.1) == verdict_badge_of(verdict_opt(v), source_rate),
{
    match v {
        Some(BitPerfectVerdict::NativeBitPerfect) => {
            let mut out: Vec<char> = Vec::new();
            push_str(&mut out, " [\u{2713} BIT-PERFECT: ");
            let s = format_sample_rate(source_rate);
            push_str(&mut out, s.as_str());
            push_str(&mut out, "] ");
            (string_from_vec(out), Tone::Good)
        },
        Some(BitPerfectVerdict::Resampled { source_rate: s, sink_rate: k, .. }) => {
            let mut out: Vec<char> = Vec::new();
            push_str(&mut out, " [\u{26a0} RESAMPLED: ");
            let a = format_sample_rate(*s);
            push_str(&mut out, a.as_str());
            push_str(&mut out, "\u{2192}");
            let b = format_sample_rate(*k);
            push_str(&mut out, b.as_str());
            push_str(&mut out, "] ");
            (string_from_vec(out), Tone::Warn)
        },
        Some(BitPerfectVerdict::VolumeDegraded { .. }) => (
            to_string(" [\u{26a0} VOL < 100%] "),
            Tone::Warn,
        ),
        Some(BitPerfectVerdict::DspFilterActive { .. }) => (
            to_string(" [\u{26a0} DSP ACTIVE] "),
            Tone::Alert,
        ),
        _ => (to_string(" [STANDBY] "), Tone::Muted),
    }
}

/// The title of the verdict banner, and its tone.
pub open spec fn banner_title_of(v: Option<VerdictView>) -> (Seq<char>, Tone) {
    match v {
        Some(VerdictView::NativeBitPerfect) => (
            " [\u{2713} DIRECT BIT-PERFECT PLAYBACK] "@,
            Tone::Good,
        ),
        Some(VerdictView::Resampled { .. }) => (" [\u{26a0} RESAMPLING DETECTED] "@, Tone::Warn),
        Some(VerdictView::VolumeDegraded { .. }) => (
            " [\u{26a0} SOFTWARE VOLUME ATTENUATION] "@,
            Tone::Warn,
        ),
        Some(VerdictView::DspFilterActive { .. }) => (
            " [\u{26a0} ACTIVE SOFTWARE DSP FILTERS] "@,
            Tone::Alert,
        ),
        _ => (" [\u{25cb} PIPELINE STANDBY / IDLE] "@, Tone::Muted),
    }
}

/// The title of the verdict banner, and its tone.
pub fn banner_title(v: Option<&BitPerfectVerdict>) -> (r: (String, Tone))
    ensures
        (r.0@, r.1) == banner_title_of(verdict_opt(v)),
{
    match v {
        Some(BitPerfectVerdict::NativeBitPerfect) => (
            to_string(" [\u{2713} DIRECT BIT-PERFECT PLAYBACK] "),
            Tone::Good,
        ),
        Some(BitPerfectVerdict::Resampled { .. }) => (
            to_string(" [\u{26a0} RESAMPLING DETECTED] "),
            Tone::Warn,
        ),
        Some(BitPerfectVerdict::VolumeDegraded { .. }) => (
            to_string(" [\u{26a0} SOFTWARE VOLUME ATTENUATION] "),
            Tone::Warn,
        ),
        Some(BitPerfectVerdict::DspFilterActive { .. }) => (
            to_string(" [\u{26a0} ACTIVE SOFTWARE DSP FILTERS] "),
            Tone::Alert,
        ),
        _ => (to_string(" [\u{25cb} PIPELINE STANDBY / IDLE] "), Tone::Muted),
    }
}

/// The diagnosis line of a resampling verdict.
pub open spec fn resample_diagnosis_of(source: u32, sink: u32, culprit: Option<Seq<char>>) -> Seq<char> {
    "Stream sample rate ("@ + sample_rate_text(source) + ") is resampled to ("@ + sample_rate_text(sink)
        + ") by PipeWire"@ + match culprit {
        Some(n) => " (Locked by: "@ + n + ")"@,
        None => Seq::empty(),
    }
}

/// The diagnosis line of a resampling verdict, naming the culprit that locks the clock.
pub fn resample_diagnosis(source: u32, sink: u32, culprit: Option<&CulpritClient>) -> (r: String)
    ensures
        r@ == resample_diagnosis_of(
            source,
            sink,
            match culprit {
                Some(c) => Some(c.name@),
                None => None,
            },
        ),
{
    let mut out: Vec<char> = Vec::new();
    push_str(&mut out, "Stream sample rate (");
    let a = format_sample_rate(source);
    push_str(&mut out, a.as_str());
    push_str(&mut out, ") is resampled to (");
    let b = format_sample_rate(sink);
    push_str(&mut out, b.as_str());
    push_str(&mut out, ") by PipeWire");
    if let Some(c) = culprit {
        push_str(&mut out, " (Locked by: ");
        push_str(&mut out, c.name.as_str());
        push_str(&mut out, ")");
    }
    string_from_vec(out)
}

} // verus!
