//! Playback state, track metadata and decoder stream parameters.

use vstd::prelude::*;
use crate::text::{push_str, string_from_vec, str_eq, to_string};

verus! {

/// Playback state of the audio engine.
#[derive(Debug, Clone, Copy, PartialEq, Eq, Structural)]
pub enum PlaybackState {
    Stopped,
    Buffering,
    Playing,
    Paused,
}

/// The view of an optional text.
pub open spec fn opt_view(o: Option<String>) -> Option<Seq<char>> {
    match o {
        Some(s) => Some(s@),
        None => None,
    }
}

/// Metadata extracted from ICY stream headers or API polling.
#[derive(Debug, Clone, PartialEq)]
pub struct TrackMetadata {
    pub artist: Option<String>,
    pub title: Option<String>,
    pub album: Option<String>,
    pub year: Option<String>,
    pub raw_title: Option<String>,
    pub cover_url: Option<String>,
    pub duration_remaining_secs: Option<u64>,
}

/// The abstract value of a `TrackMetadata`: its texts as character sequences.
pub struct TrackView {
    pub artist: Option<Seq<char>>,
    pub title: Option<Seq<char>>,
    pub album: Option<Seq<char>>,
    pub year: Option<Seq<char>>,
    pub raw_title: Option<Seq<char>>,
    pub cover_url: Option<Seq<char>>,
    pub duration_remaining_secs: Option<u64>,
}

impl View for TrackMetadata {
    type V = TrackView;

    open spec fn view(&self) -> TrackView {
        TrackView {
            artist: opt_view(self.artist),
            title: opt_view(self.title),
            album: opt_view(self.album),
            year: opt_view(self.year),
            raw_title: opt_view(self.raw_title),
            cover_url: opt_view(self.cover_url),
            duration_remaining_secs: self.duration_remaining_secs,
        }
    }
}

/// The name `display_name` gives a track: `Artist - Title` when both are
/// non-empty, else a non-empty title, else the raw title, else `Unknown Track`.
pub open spec fn display_name_of(t: TrackView) -> Seq<char> {
    if t.artist matches Some(a) && t.title matches Some(ti) && a.len() > 0 && ti.len() > 0 {
        t.artist->0 + " - "@ + t.title->0
    } else if t.title matches Some(ti) && ti.len() > 0 {
        t.title->0
    } else {
        match t.raw_title {
            Some(r) => r,
            None => "Unknown Track"@,
        }
    }
}

/// A copy of an optional text.
pub fn copy_opt_string(o: &Option<String>) -> (r: Option<String>)
    ensures
        r == *o,
{
    match o {
        Some(s) => Some(s.clone()),
        None => None,
    }
}

/// Whether two optional texts are equal.
pub fn opt_str_eq(a: &Option<String>, b: &Option<String>) -> (r: bool)
    ensures
        r == (opt_view(*a) == opt_view(*b)),
{
    match (a, b) {
        (Some(x), Some(y)) => str_eq(x.as_str(), y.as_str()),
        (None, None) => true,
        _ => false,
    }
}

impl TrackMetadata {
    /// Metadata with every field empty.
    pub fn empty() -> (r: TrackMetadata)
        ensures
            r.artist is None,
            r.title is None,
            r.album is None,
            r.year is None,
            r.raw_title is None,
            r.cover_url is None,
            r.duration_remaining_secs is None,
    {
        TrackMetadata {
            artist: None,
            title: None,
            album: None,
            year: None,
            raw_title: None,
            cover_url: None,
            duration_remaining_secs: None,
        }
    }

    /// A copy of this metadata.
    pub fn copy(&self) -> (r: TrackMetadata)
        ensures
            r == *self,
    {
        TrackMetadata {
            artist: copy_opt_string(&self.artist),
            title: copy_opt_string(&self.title),
            album: copy_opt_string(&self.album),
            year: copy_opt_string(&self.year),
            raw_title: copy_opt_string(&self.raw_title),
            cover_url: copy_opt_string(&self.cover_url),
            duration_remaining_secs: self.duration_remaining_secs,
        }
    }

    /// Whether two metadata records hold the same values (`==`).
    pub fn same_as(&self, other: &TrackMetadata) -> (r: bool)
        ensures
            r == (self@ == other@),
    {
        opt_str_eq(&self.artist, &other.artist) && opt_str_eq(&self.title, &other.title)
            && opt_str_eq(&self.album, &other.album) && opt_str_eq(&self.year, &other.year)
            && opt_str_eq(&self.raw_title, &other.raw_title) && opt_str_eq(
            &self.cover_url,
            &other.cover_url,
        ) && self.duration_remaining_secs == other.duration_remaining_secs
    }

    /// Formats the track as `Artist - Title` or fallback to `raw_title`.
    pub fn display_name(&self) -> (r: String)
        ensures
            r@ == display_name_of(self@),
    {
        match (&self.artist, &self.title) {
            (Some(a), Some(t)) => {
                if !a.as_str().is_empty() && !t.as_str().is_empty() {
                    let mut out: Vec<char> = Vec::new();
                    push_str(&mut out, a.as_str());
                    push_str(&mut out, " - ");
                    push_str(&mut out, t.as_str());
                    return string_from_vec(out);
                }
            },
            _ => {},
        }
        match &self.title {
            Some(t) => {
                if !t.as_str().is_empty() {
                    return t.clone();
                }
            },
            None => {},
        }
        match &self.raw_title {
            Some(r) => r.clone(),
            None => to_string("Unknown Track"),
        }
    }
}

impl Default for TrackMetadata {
    fn default() -> (r: TrackMetadata)
        ensures
            r.artist is None,
            r.title is None,
            r.album is None,
            r.year is None,
            r.raw_title is None,
            r.cover_url is None,
            r.duration_remaining_secs is None,
    {
        TrackMetadata::empty()
    }
}

/// Stream parameters reported by the MPV decoder.
#[derive(Debug, Clone, PartialEq)]
pub struct AudioStreamParams {
    pub codec: String,
    pub sample_rate: u32,
    pub channels: u32,
    pub bit_depth: Option<u8>,
    pub bitrate_kbps: Option<u32>,
}

/// The model of [`AudioStreamParams`].
pub struct ParamsView {
    pub codec: Seq<char>,
    pub sample_rate: u32,
    pub channels: u32,
    pub bit_depth: Option<u8>,
    pub bitrate_kbps: Option<u32>,
}

impl View for AudioStreamParams {
    type V = ParamsView;

    open spec fn view(&self) -> ParamsView {
        ParamsView {
            codec: self.codec@,
            sample_rate: self.sample_rate,
            channels: self.channels,
            bit_depth: self.bit_depth,
            bitrate_kbps: self.bitrate_kbps,
        }
    }
}

impl AudioStreamParams {
    /// Parameters of no stream: empty codec and zero rate and channels.
    pub fn empty() -> (r: AudioStreamParams)
        ensures
            r.codec@.len() == 0,
            r.sample_rate == 0,
            r.channels == 0,
            r.bit_depth is None,
            r.bitrate_kbps is None,
    {
        AudioStreamParams {
            codec: String::new(),
            sample_rate: 0,
            channels: 0,
            bit_depth: None,
            bitrate_kbps: None,
        }
    }

    /// A copy of these parameters.
    pub fn copy(&self) -> (r: AudioStreamParams)
        ensures
            r == *self,
    {
        AudioStreamParams {
            codec: self.codec.clone(),
            sample_rate: self.sample_rate,
            channels: self.channels,
            bit_depth: self.bit_depth,
            bitrate_kbps: self.bitrate_kbps,
        }
    }
}

impl Default for AudioStreamParams {
    fn default() -> (r: AudioStreamParams)
        ensures
            r.codec@.len() == 0,
            r.sample_rate == 0,
            r.channels == 0,
            r.bit_depth is None,
            r.bitrate_kbps is None,
    {
        AudioStreamParams::empty()
    }
}

} // verus!
