//! The three-stage pipeline check: what the decoder plays, what the PipeWire
//! graph runs at, what the DAC is clocked at, and the verdict on whether the
//! path is bit-perfect.
//!
//! Gathering the three stages is outside work (a process, files under
//! `/proc`); the status is assembled here in steps, each a function of what
//! the previous outside step returned.

use vstd::prelude::*;
use crate::alsa::{
    AlsaCard, AlsaHwParams, CapsView, CardView, DacCapabilities, HwView, card_views,
};
use crate::events::{AudioStreamParams, opt_view};
use crate::pipewire::{CulpritClient, CulpritView, PipeWireGraphReport, PipeWireSink, SinkView};
use crate::seq_search::{first_where, lemma_first_where, lemma_first_where_at, lemma_first_where_none};
use crate::text::{chars_of, contains_exec, contains_seq};

verus! {

// ---------------------------------------------------------------------------
// Types
// ---------------------------------------------------------------------------

/// Verdict on the bit-perfect fidelity of the audio pipeline.
///
/// The MPV volume is carried as the bit pattern of its `f64` value
/// (`f64::to_bits`), which is all the verdict does with it.
#[derive(Debug, Clone)]
pub enum BitPerfectVerdict {
    /// Perfectly preserving native sample rate and bit depth.
    NativeBitPerfect,
    /// Audio is being resampled due to graph or device rate mismatch.
    Resampled { source_rate: u32, sink_rate: u32, culprit: Option<CulpritClient> },
    /// Volume in MPV is below 100%, causing software bit reduction.
    VolumeDegraded { mpv_volume_bits: u64 },
    /// Software DSP filters / equalizers are active in PipeWire.
    DspFilterActive { filters: Vec<String> },
    /// Audio pipeline is inactive or idle.
    Idle,
}

/// The model of a [`BitPerfectVerdict`].
pub enum VerdictView {
    NativeBitPerfect,
    Resampled { source_rate: u32, sink_rate: u32, culprit: Option<CulpritView> },
    VolumeDegraded { mpv_volume_bits: u64 },
    DspFilterActive { filters: Seq<Seq<char>> },
    Idle,
}

/// The views of a list of strings.
pub open spec fn string_views(v: Seq<String>) -> Seq<Seq<char>> {
    v.map_values(|s: String| s@)
}

/// The views of a list of culprits.
pub open spec fn culprit_views(v: Seq<CulpritClient>) -> Seq<CulpritView> {
    v.map_values(|c: CulpritClient| c@)
}

impl View for BitPerfectVerdict {
    type V = VerdictView;

    open spec fn view(&self) -> VerdictView {
        match self {
            BitPerfectVerdict::NativeBitPerfect => VerdictView::NativeBitPerfect,
            BitPerfectVerdict::Resampled { source_rate, sink_rate, culprit } => VerdictView::Resampled {
                source_rate: *source_rate,
                sink_rate: *sink_rate,
                culprit: match culprit {
                    Some(c) => Some(c@),
                    None => None,
                },
            },
            BitPerfectVerdict::VolumeDegraded { mpv_volume_bits } => VerdictView::VolumeDegraded {
                mpv_volume_bits: *mpv_volume_bits,
            },
            BitPerfectVerdict::DspFilterActive { filters } => VerdictView::DspFilterActive {
                filters: string_views(filters@),
            },
            BitPerfectVerdict::Idle => VerdictView::Idle,
        }
    }
}

/// Comprehensive snapshot of all 3 stages in the audio pipeline.
///
/// The MPV volume is held as the bit pattern of its `f64` value.
#[derive(Debug, Clone)]
pub struct PipelineStatus {
    pub source_codec: String,
    pub source_rate: u32,
    pub source_channels: u32,
    pub source_bit_depth: Option<u8>,
    pub source_bitrate_kbps: Option<u32>,
    pub mpv_volume_bits: u64,
    pub pw_sink: Option<PipeWireSink>,
    pub pw_sink_rate: Option<u32>,
    pub pw_allowed_rates: Vec<u32>,
    pub pw_dsp_filters: Vec<String>,
    pub pw_culprits: Vec<CulpritClient>,
    pub alsa_card_name: Option<String>,
    pub alsa_card_index: Option<u32>,
    pub alsa_hw_params: Option<AlsaHwParams>,
    pub dac_capabilities: Option<DacCapabilities>,
    pub verdict: Option<BitPerfectVerdict>,
}

/// The model of a [`PipelineStatus`].
pub struct StatusView {
    pub source_codec: Seq<char>,
    pub source_rate: u32,
    pub source_channels: u32,
    pub source_bit_depth: Option<u8>,
    pub source_bitrate_kbps: Option<u32>,
    pub mpv_volume_bits: u64,
    pub pw_sink: Option<SinkView>,
    pub pw_sink_rate: Option<u32>,
    pub pw_allowed_rates: Seq<u32>,
    pub pw_dsp_filters: Seq<Seq<char>>,
    pub pw_culprits: Seq<CulpritView>,
    pub alsa_card_name: Option<Seq<char>>,
    pub alsa_card_index: Option<u32>,
    pub alsa_hw_params: Option<HwView>,
    pub dac_capabilities: Option<CapsView>,
    pub verdict: Option<VerdictView>,
}

impl View for PipelineStatus {
    type V = StatusView;

    open spec fn view(&self) -> StatusView {
        StatusView {
            source_codec: self.source_codec@,
            source_rate: self.source_rate,
            source_channels: self.source_channels,
            source_bit_depth: self.source_bit_depth,
            source_bitrate_kbps: self.source_bitrate_kbps,
            mpv_volume_bits: self.mpv_volume_bits,
            pw_sink: match self.pw_sink {
                Some(s) => Some(s@),
                None => None,
            },
            pw_sink_rate: self.pw_sink_rate,
            pw_allowed_rates: self.pw_allowed_rates@,
            pw_dsp_filters: string_views(self.pw_dsp_filters@),
            pw_culprits: culprit_views(self.pw_culprits@),
            alsa_card_name: opt_view(self.alsa_card_name),
            alsa_card_index: self.alsa_card_index,
            alsa_hw_params: match self.alsa_hw_params {
                Some(h) => Some(h@),
                None => None,
            },
            dac_capabilities: match self.dac_capabilities {
                Some(c) => Some(c@),
                None => None,
            },
            verdict: match self.verdict {
                Some(v) => Some(v@),
                None => None,
            },
        }
    }
}

// ---------------------------------------------------------------------------
// Specifications
// ---------------------------------------------------------------------------

/// The status before any stage is looked at: the decoder's parameters and
/// volume, nothing else, and the `Idle` verdict when no stream plays.
pub open spec fn status_begin(p: AudioStreamParams, mpv_volume_bits: u64) -> StatusView {
    StatusView {
        source_codec: p.codec@,
        source_rate: p.sample_rate,
        source_channels: p.channels,
        source_bit_depth: p.bit_depth,
        source_bitrate_kbps: p.bitrate_kbps,
        mpv_volume_bits: mpv_volume_bits,
        pw_sink: None,
        pw_sink_rate: None,
        pw_allowed_rates: Seq::empty(),
        pw_dsp_filters: Seq::empty(),
        pw_culprits: Seq::empty(),
        alsa_card_name: None,
        alsa_card_index: None,
        alsa_hw_params: None,
        dac_capabilities: None,
        verdict: if p.sample_rate == 0 {
            Some(VerdictView::Idle)
        } else {
            None
        },
    }
}

/// A card that looks like the USB DAC: flagged USB, a `DSP` id or a `Chu2` name.
pub open spec fn dac_like() -> spec_fn(CardView) -> bool {
    |c: CardView| c.is_usb || contains_seq(c.id, "DSP"@) || contains_seq(c.name, "Chu2"@)
}

/// The card with ALSA index 1.
pub open spec fn second_card() -> spec_fn(CardView) -> bool {
    |c: CardView| c.index == 1
}

/// The position of the card to inspect: the first DAC-like card, else the
/// card with index 1, else the first card.
pub open spec fn target_card(cs: Seq<CardView>) -> Option<int> {
    match first_where(cs, dac_like(), 0) {
        Some(k) => Some(k),
        None => match first_where(cs, second_card(), 0) {
            Some(k) => Some(k),
            None => if cs.len() > 0 {
                Some(0)
            } else {
                None
            },
        },
    }
}

/// The verdict on a status, given whether MPV's volume is below full (under 99.5%):
/// idle without a stream; then DSP filters; then a lowered volume; then a sink
/// rate other than the source rate (an unknown sink rate counts as equal), with
/// the first culprit; then a hardware rate other than the source rate; else native.
pub open spec fn verdict_of(s: StatusView, volume_below_full: bool) -> VerdictView {
    let sink_rate = match s.pw_sink_rate {
        Some(r) => r,
        None => s.source_rate,
    };
    if s.source_rate == 0 {
        VerdictView::Idle
    } else if s.pw_dsp_filters.len() > 0 {
        VerdictView::DspFilterActive { filters: s.pw_dsp_filters }
    } else if volume_below_full {
        VerdictView::VolumeDegraded { mpv_volume_bits: s.mpv_volume_bits }
    } else if sink_rate != s.source_rate {
        VerdictView::Resampled {
            source_rate: s.source_rate,
            sink_rate: sink_rate,
            culprit: if s.pw_culprits.len() > 0 {
                Some(s.pw_culprits[0])
            } else {
                None
            },
        }
    } else if s.alsa_hw_params matches Some(hw) && hw.rate matches Some(r) && r != s.source_rate {
        VerdictView::Resampled {
            source_rate: s.source_rate,
            sink_rate: s.alsa_hw_params->0.rate->0,
            culprit: None,
        }
    } else {
        VerdictView::NativeBitPerfect
    }
}

// ---------------------------------------------------------------------------
// Executable functions
// ---------------------------------------------------------------------------

/// The position of the first card satisfying `dac_like`.
fn first_dac_like(cards: &Vec<AlsaCard>) -> (r: Option<usize>)
    ensures
        match r {
            Some(k) => k < cards@.len() && first_where(card_views(cards@), dac_like(), 0) == Some(
                k as int,
            ),
            None => first_where(card_views(cards@), dac_like(), 0) is None,
        },
{
    let ghost cs = card_views(cards@);
    proof {
        lemma_first_where(cs, dac_like(), 0);
    }
    let mut k: usize = 0;
    while k < cards.len()
        invariant
            cs == card_views(cards@),
            k <= cards@.len(),
            forall|j: int| 0 <= j < k ==> !dac_like()(#[trigger] cs[j]),
            match first_where(cs, dac_like(), 0) {
                Some(i) => 0 <= i < cs.len() && dac_like()(cs[i]) && forall|j: int|
                    0 <= j < i ==> !dac_like()(cs[j]),
                None => forall|j: int| 0 <= j < cs.len() ==> !dac_like()(cs[j]),
            },
        decreases cards@.len() - k,
    {
        let c = &cards[k];
        let id = chars_of(c.id.as_str());
        let name = chars_of(c.name.as_str());
        let hit = c.is_usb || contains_exec(id.as_slice(), chars_of("DSP").as_slice())
            || contains_exec(name.as_slice(), chars_of("Chu2").as_slice());
        assert(cs[k as int] == cards@[k as int]@);
        if hit {
            proof {
                match first_where(cs, dac_like(), 0) {
                    Some(i) => {
                        if i < k {
                            assert(!dac_like()(cs[i]));
                        }
                        if i > k {
                            assert(!dac_like()(cs[k as int]));
                        }
                    },
                    None => {
                        assert(!dac_like()(cs[k as int]));
                    },
                }
            }
            return Some(k);
        }
        k = k + 1;
    }
    proof {
        if let Some(i) = first_where(cs, dac_like(), 0) {
            assert(!dac_like()(cs[i]));
        }
    }
    None
}

/// The position of the first card with ALSA index 1.
fn first_second_card(cards: &Vec<AlsaCard>) -> (r: Option<usize>)
    ensures
        match r {
            Some(k) => k < cards@.len() && first_where(card_views(cards@), second_card(), 0)
                == Some(k as int),
            None => first_where(card_views(cards@), second_card(), 0) is None,
        },
{
    let ghost cs = card_views(cards@);
    proof {
        lemma_first_where(cs, second_card(), 0);
    }
    let mut k: usize = 0;
    while k < cards.len()
        invariant
            cs == card_views(cards@),
            k <= cards@.len(),
            forall|j: int| 0 <= j < k ==> !second_card()(#[trigger] cs[j]),
            match first_where(cs, second_card(), 0) {
                Some(i) => 0 <= i < cs.len() && second_card()(cs[i]) && forall|j: int|
                    0 <= j < i ==> !second_card()(cs[j]),
                None => forall|j: int| 0 <= j < cs.len() ==> !second_card()(cs[j]),
            },
        decreases cards@.len() - k,
    {
        assert(cs[k as int] == cards@[k as int]@);
        if cards[k].index == 1 {
            proof {
                match first_where(cs, second_card(), 0) {
                    Some(i) => {
                        if i < k {
                            assert(!second_card()(cs[i]));
                        }
                        if i > k {
                            assert(!second_card()(cs[k as int]));
                        }
                    },
                    None => {
                        assert(!second_card()(cs[k as int]));
                    },
                }
            }
            return Some(k);
        }
        k = k + 1;
    }
    proof {
        if let Some(i) = first_where(cs, second_card(), 0) {
            assert(!second_card()(cs[i]));
        }
    }
    None
}

/// The position of the card to inspect: the first DAC-like card, else the
/// card with index 1, else the first card.
pub fn select_target_card(cards: &Vec<AlsaCard>) -> (r: Option<usize>)
    ensures
        match r {
            Some(k) => k < cards@.len() && target_card(card_views(cards@)) == Some(k as int),
            None => target_card(card_views(cards@)) is None,
        },
{
    match first_dac_like(cards) {
        Some(k) => Some(k),
        None => match first_second_card(cards) {
            Some(k) => Some(k),
            None => if cards.len() > 0 {
                Some(0)
            } else {
                None
            },
        },
    }
}

/// A copy of a list of strings.
fn copy_string_list(v: &Vec<String>) -> (r: Vec<String>)
    ensures
        string_views(r@) == string_views(v@),
{
    let mut out: Vec<String> = Vec::new();
    let mut i: usize = 0;
    while i < v.len()
        invariant
            i <= v@.len(),
            string_views(out@) == string_views(v@.subrange(0, i as int)),
        decreases v@.len() - i,
    {
        let s = v[i].clone();
        let ghost before = out@;
        out.push(s);
        assert(out@ == before.push(s));
        i = i + 1;
        assert(v@.subrange(0, i as int) =~= v@.subrange(0, i - 1).push(v@[i - 1]));
        assert(string_views(out@) =~= string_views(before).push(s@));
        assert(string_views(v@.subrange(0, i as int)) =~= string_views(v@.subrange(0, i - 1)).push(
            v@[i - 1]@,
        ));
    }
    assert(v@.subrange(0, i as int) =~= v@);
    out
}

/// A copy of a culprit.
fn copy_culprit(c: &CulpritClient) -> (r: CulpritClient)
    ensures
        r@ == c@,
{
    CulpritClient {
        name: c.name.clone(),
        pid: c.pid,
        locking_rate: c.locking_rate,
        description: c.description.clone(),
    }
}

impl PipelineStatus {
    /// The status before any stage is looked at: the decoder's parameters and
    /// MPV's volume (as `f64` bits); the verdict is `Idle` when no stream plays,
    /// and then no other stage needs to be looked at.
    pub fn begin(stream_params: &AudioStreamParams, mpv_volume_bits: u64) -> (r: PipelineStatus)
        ensures
            r@ == status_begin(*stream_params, mpv_volume_bits),
    {
        let r = PipelineStatus {
            source_codec: stream_params.codec.clone(),
            source_rate: stream_params.sample_rate,
            source_channels: stream_params.channels,
            source_bit_depth: stream_params.bit_depth,
            source_bitrate_kbps: stream_params.bitrate_kbps,
            mpv_volume_bits,
            pw_sink: None,
            pw_sink_rate: None,
            pw_allowed_rates: Vec::new(),
            pw_dsp_filters: Vec::new(),
            pw_culprits: Vec::new(),
            alsa_card_name: None,
            alsa_card_index: None,
            alsa_hw_params: None,
            dac_capabilities: None,
            verdict: if stream_params.sample_rate == 0 {
                Some(BitPerfectVerdict::Idle)
            } else {
                None
            },
        };
        assert(r@.pw_dsp_filters =~= Seq::<Seq<char>>::empty());
        assert(r@.pw_culprits =~= Seq::<CulpritView>::empty());
        assert(r@ == status_begin(*stream_params, mpv_volume_bits));
        r
    }

    /// Take in the PipeWire stage: the active sink and its rate, the allowed
    /// rates, the DSP filters and the culprits of the graph report.
    pub fn record_pipewire(&mut self, report: PipeWireGraphReport)
        ensures
            final(self)@ == (StatusView {
                pw_sink_rate: match report@.active_sink {
                    Some(s) => s.active_rate,
                    None => old(self)@.pw_sink_rate,
                },
                pw_sink: report@.active_sink,
                pw_allowed_rates: report@.allowed_clock_rates,
                pw_dsp_filters: report@.dsp_filters_active,
                pw_culprits: report@.culprits,
                ..old(self)@
            }),
    {
        if let Some(sink) = &report.active_sink {
            self.pw_sink_rate = sink.active_rate;
        }
        self.pw_sink = report.active_sink;
        self.pw_allowed_rates = report.allowed_clock_rates;
        self.pw_dsp_filters = report.dsp_filters_active;
        self.pw_culprits = report.culprits;
        assert(string_views(self.pw_dsp_filters@) == report@.dsp_filters_active);
        assert(culprit_views(self.pw_culprits@) == report@.culprits);
    }

    /// Take in the list of sound cards: the card to inspect is recorded by
    /// name and index, and its ALSA index is returned, for the hardware
    /// parameters and capabilities to be read.
    pub fn choose_card(&mut self, cards: &Vec<AlsaCard>) -> (r: Option<u32>)
        ensures
            match target_card(card_views(cards@)) {
                Some(k) => {
                    &&& r == Some(cards@[k].index)
                    &&& final(self)@ == (StatusView {
                        alsa_card_name: Some(cards@[k].name@),
                        alsa_card_index: Some(cards@[k].index),
                        ..old(self)@
                    })
                },
                None => r is None && final(self)@ == old(self)@,
            },
    {
        match select_target_card(cards) {
            Some(k) => {
                let card = &cards[k];
                self.alsa_card_name = Some(card.name.clone());
                self.alsa_card_index = Some(card.index);
                Some(card.index)
            },
            None => None,
        }
    }

    /// Take in the hardware stage of the chosen card: its parameters and its
    /// capabilities, each when it could be read.
    pub fn record_alsa(&mut self, hw: Option<AlsaHwParams>, caps: Option<DacCapabilities>)
        ensures
            final(self)@ == (StatusView {
                alsa_hw_params: match hw {
                    Some(h) => Some(h@),
                    None => old(self)@.alsa_hw_params,
                },
                dac_capabilities: match caps {
                    Some(c) => Some(c@),
                    None => old(self)@.dac_capabilities,
                },
                ..old(self)@
            }),
    {
        if let Some(h) = hw {
            self.alsa_hw_params = Some(h);
        }
        if let Some(c) = caps {
            self.dac_capabilities = Some(c);
        }
    }

    /// Determines the bit-perfect verdict based on the 3 stages, given whether
    /// MPV's volume is below 99.5%.
    pub fn calculate_verdict(&self, volume_below_full: bool) -> (r: BitPerfectVerdict)
        ensures
            r@ == verdict_of(self@, volume_below_full),
    {
        if self.source_rate == 0 {
            return BitPerfectVerdict::Idle;
        }
        if self.pw_dsp_filters.len() > 0 {
            return BitPerfectVerdict::DspFilterActive {
                filters: copy_string_list(&self.pw_dsp_filters),
            };
        }
        if volume_below_full {
            return BitPerfectVerdict::VolumeDegraded { mpv_volume_bits: self.mpv_volume_bits };
        }
        let sink_rate = match self.pw_sink_rate {
            Some(r) => r,
            None => self.source_rate,
        };
        if sink_rate != self.source_rate {
            let culprit = if self.pw_culprits.len() > 0 {
                Some(copy_culprit(&self.pw_culprits[0]))
            } else {
                None
            };
            return BitPerfectVerdict::Resampled { source_rate: self.source_rate, sink_rate, culprit };
        }
        if let Some(hw) = &self.alsa_hw_params {
            if let Some(alsa_rate) = hw.rate {
                if alsa_rate != self.source_rate {
                    return BitPerfectVerdict::Resampled {
                        source_rate: self.source_rate,
                        sink_rate: alsa_rate,
                        culprit: None,
                    };
                }
            }
        }
        BitPerfectVerdict::NativeBitPerfect
    }

    /// Record the verdict on the gathered stages.
    pub fn conclude(&mut self, volume_below_full: bool)
        ensures
            final(self)@ == (StatusView {
                verdict: Some(verdict_of(old(self)@, volume_below_full)),
                ..old(self)@
            }),
    {
        let v = self.calculate_verdict(volume_below_full);
        self.verdict = Some(v);
    }
}

// ---------------------------------------------------------------------------
// Laws
// ---------------------------------------------------------------------------

/// The path is judged bit-perfect only when a stream plays, no DSP filter is
/// active, MPV's volume is full, the sink runs at the source rate (or its rate
/// is unknown) and the hardware runs at the source rate (or its rate is unknown).
pub proof fn lemma_native_means_matching_rates(s: StatusView, volume_below_full: bool)
    ensures
        verdict_of(s, volume_below_full) == VerdictView::NativeBitPerfect <==> ({
            &&& s.source_rate > 0
            &&& s.pw_dsp_filters.len() == 0
            &&& !volume_below_full
            &&& (s.pw_sink_rate matches Some(r) ==> r == s.source_rate)
            &&& (s.alsa_hw_params matches Some(hw) ==> (hw.rate matches Some(r) ==> r == s.source_rate))
        }),
{
}

/// The verdict is `Idle` exactly when no stream plays, and a status begun for
/// a stream that plays has no verdict yet.
pub proof fn lemma_idle_iff_no_stream(s: StatusView, volume_below_full: bool, p: AudioStreamParams, bits: u64)
    ensures
        (verdict_of(s, volume_below_full) == VerdictView::Idle) <==> s.source_rate == 0,
        (status_begin(p, bits).verdict is None) <==> p.sample_rate != 0,
{
}

/// A resampling verdict always names two different rates, the first being the source rate.
pub proof fn lemma_resampled_rates_differ(s: StatusView, volume_below_full: bool)
    ensures
        verdict_of(s, volume_below_full) matches VerdictView::Resampled { source_rate, sink_rate, .. }
            ==> source_rate == s.source_rate && sink_rate != source_rate,
{
}

/// What each verdict on a playing stream says: with DSP filters active it
/// names exactly the status's filters, in order; else, with MPV's volume
/// lowered, it carries that volume; else, with the sink at another rate than
/// the source, it is a resampling from the source rate to the sink's rate,
/// blamed on the first culprit if there is one; else, with the hardware at
/// another rate, a resampling to the hardware's rate.
pub proof fn lemma_verdict_carries_its_facts(s: StatusView, volume_below_full: bool)
    requires
        s.source_rate != 0,
    ensures
        s.pw_dsp_filters.len() > 0 ==> verdict_of(s, volume_below_full) == (VerdictView::DspFilterActive {
            filters: s.pw_dsp_filters,
        }),
        s.pw_dsp_filters.len() == 0 && volume_below_full ==> verdict_of(s, volume_below_full) == (
        VerdictView::VolumeDegraded { mpv_volume_bits: s.mpv_volume_bits }),
        s.pw_dsp_filters.len() == 0 && !volume_below_full && s.pw_sink_rate is Some
            && s.pw_sink_rate->0 != s.source_rate ==> verdict_of(s, volume_below_full) == (
        VerdictView::Resampled {
            source_rate: s.source_rate,
            sink_rate: s.pw_sink_rate->0,
            culprit: if s.pw_culprits.len() > 0 {
                Some(s.pw_culprits[0])
            } else {
                None
            },
        }),
        s.pw_dsp_filters.len() == 0 && !volume_below_full && (s.pw_sink_rate is None
            || s.pw_sink_rate == Some(s.source_rate)) && s.alsa_hw_params is Some
            && s.alsa_hw_params->0.rate is Some && s.alsa_hw_params->0.rate->0 != s.source_rate
            ==> verdict_of(s, volume_below_full) == (VerdictView::Resampled {
            source_rate: s.source_rate,
            sink_rate: s.alsa_hw_params->0.rate->0,
            culprit: None,
        }),
{
}

/// The card inspected: the first card that is on USB, has `DSP` in its id or
/// `Chu2` in its name; without one, the first card with ALSA index 1;
/// without one, the first card; none for no cards.
pub proof fn lemma_target_card_rules(cs: Seq<CardView>)
    ensures
        forall|k: int|
            0 <= k < cs.len() && (cs[k].is_usb || contains_seq(cs[k].id, "DSP"@) || contains_seq(
                cs[k].name,
                "Chu2"@,
            )) && (forall|m: int|
                0 <= m < k ==> !((#[trigger] cs[m]).is_usb || contains_seq(cs[m].id, "DSP"@)
                    || contains_seq(cs[m].name, "Chu2"@))) ==> target_card(cs) == Some(k),
        forall|k: int|
            0 <= k < cs.len() && cs[k].index == 1 && (forall|m: int|
                0 <= m < cs.len() ==> !((#[trigger] cs[m]).is_usb || contains_seq(cs[m].id, "DSP"@)
                    || contains_seq(cs[m].name, "Chu2"@))) && (forall|m: int|
                0 <= m < k ==> (#[trigger] cs[m]).index != 1) ==> target_card(cs) == Some(k),
        cs.len() > 0 && (forall|m: int|
            0 <= m < cs.len() ==> !((#[trigger] cs[m]).is_usb || contains_seq(cs[m].id, "DSP"@)
                || contains_seq(cs[m].name, "Chu2"@)) && cs[m].index != 1) ==> target_card(cs) == Some(
            0int,
        ),
        cs.len() == 0 ==> target_card(cs) is None,
{
    assert forall|k: int|
        0 <= k < cs.len() && (cs[k].is_usb || contains_seq(cs[k].id, "DSP"@) || contains_seq(
            cs[k].name,
            "Chu2"@,
        )) && (forall|m: int|
            0 <= m < k ==> !((#[trigger] cs[m]).is_usb || contains_seq(cs[m].id, "DSP"@)
                || contains_seq(cs[m].name, "Chu2"@))) implies target_card(cs) == Some(k) by {
        lemma_first_where_at(cs, dac_like(), k);
    }
    assert forall|k: int|
        0 <= k < cs.len() && cs[k].index == 1 && (forall|m: int|
            0 <= m < cs.len() ==> !((#[trigger] cs[m]).is_usb || contains_seq(cs[m].id, "DSP"@)
                || contains_seq(cs[m].name, "Chu2"@))) && (forall|m: int|
            0 <= m < k ==> (#[trigger] cs[m]).index != 1) implies target_card(cs) == Some(k) by {
        lemma_first_where_none(cs, dac_like());
        lemma_first_where_at(cs, second_card(), k);
    }
    if cs.len() > 0 && (forall|m: int|
        0 <= m < cs.len() ==> !((#[trigger] cs[m]).is_usb || contains_seq(cs[m].id, "DSP"@)
            || contains_seq(cs[m].name, "Chu2"@)) && cs[m].index != 1) {
        lemma_first_where_none(cs, dac_like());
        lemma_first_where_none(cs, second_card());
    }
}

} // verus!
