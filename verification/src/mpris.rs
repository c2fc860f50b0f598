//! What the MPRIS2 media-player interface reports: the playback status, the
//! track metadata, the supported URI schemes and MIME types. The D-Bus
//! service itself runs around this module.

use vstd::prelude::*;
use crate::config::strings_view;
use crate::events::{PlaybackState, TrackMetadata, TrackView, opt_view};
use crate::text::to_string;

verus! {

/// The MPRIS `PlaybackStatus` of a playback state (buffering reads as stopped).
pub open spec fn playback_status_of(s: PlaybackState) -> Seq<char> {
    match s {
        PlaybackState::Playing => "Playing"@,
        PlaybackState::Paused => "Paused"@,
        _ => "Stopped"@,
    }
}

/// The MPRIS `PlaybackStatus` of a playback state.
pub fn playback_status(s: PlaybackState) -> (r: String)
    ensures
        r@ == playback_status_of(s),
{
    match s {
        PlaybackState::Playing => to_string("Playing"),
        PlaybackState::Paused => to_string("Paused"),
        PlaybackState::Stopped | PlaybackState::Buffering => to_string("Stopped"),
    }
}

/// The MPRIS metadata of the current track.
pub struct MprisMetadata {
    pub track_id: String,
    pub title: String,
    pub artist: Vec<String>,
    pub album: String,
    pub art_url: Option<String>,
}

/// The model of [`MprisMetadata`].
pub struct MetadataView {
    pub track_id: Seq<char>,
    pub title: Seq<char>,
    pub artist: Seq<Seq<char>>,
    pub album: Seq<char>,
    pub art_url: Option<Seq<char>>,
}

impl View for MprisMetadata {
    type V = MetadataView;

    open spec fn view(&self) -> MetadataView {
        MetadataView {
            track_id: self.track_id@,
            title: self.title@,
            artist: strings_view(self.artist@),
            album: self.album@,
            art_url: opt_view(self.art_url),
        }
    }
}

/// The metadata reported for a track on a station: the fixed current-track
/// id; the title, else the raw title, else the station; the artist, else the
/// station; the album, else the station; the cover when there is one.
pub open spec fn metadata_of(t: TrackView, station: Seq<char>) -> MetadataView {
    MetadataView {
        track_id: "/org/mpris/MediaPlayer2/CurrentTrack"@,
        title: match t.title {
            Some(x) => x,
            None => match t.raw_title {
                Some(x) => x,
                None => station,
            },
        },
        artist: seq![
            match t.artist {
                Some(a) => a,
                None => station,
            },
        ],
        album: match t.album {
            Some(a) => a,
            None => station,
        },
        art_url: t.cover_url,
    }
}

/// The MPRIS metadata of a track playing on the station `station_name`.
pub fn metadata(track: &TrackMetadata, station_name: &str) -> (r: MprisMetadata)
    ensures
        r@ == metadata_of(track@, station_name@),
{
    let title = match &track.title {
        Some(t) => t.clone(),
        None => match &track.raw_title {
            Some(t) => t.clone(),
            None => to_string(station_name),
        },
    };
    let artist = match &track.artist {
        Some(a) => a.clone(),
        None => to_string(station_name),
    };
    let album = match &track.album {
        Some(a) => a.clone(),
        None => to_string(station_name),
    };
    let mut artists: Vec<String> = Vec::new();
    artists.push(artist);
    let r = MprisMetadata {
        track_id: to_string("/org/mpris/MediaPlayer2/CurrentTrack"),
        title,
        artist: artists,
        album,
        art_url: crate::events::copy_opt_string(&track.cover_url),
    };
    assert(r@.artist =~= metadata_of(track@, station_name@).artist);
    r
}

/// The URI schemes the player opens.
pub fn supported_uri_schemes() -> (r: Vec<String>)
    ensures
        strings_view(r@) == seq!["http"@, "https"@],
{
    let mut r: Vec<String> = Vec::new();
    r.push(to_string("http"));
    r.push(to_string("https"));
    assert(strings_view(r@) =~= seq!["http"@, "https"@]);
    r
}

/// The MIME types the player plays.
pub fn supported_mime_types() -> (r: Vec<String>)
    ensures
        strings_view(r@) == seq!["audio/flac"@, "audio/x-flac"@, "audio/aac"@, "audio/mpeg"@],
{
    let mut r: Vec<String> = Vec::new();
    r.push(to_string("audio/flac"));
    r.push(to_string("audio/x-flac"));
    r.push(to_string("audio/aac"));
    r.push(to_string("audio/mpeg"));
    assert(strings_view(r@) =~= seq!["audio/flac"@, "audio/x-flac"@, "audio/aac"@, "audio/mpeg"@]);
    r
}

/// The identity the player gives on the bus.
pub fn identity() -> (r: String)
    ensures
        r@ == "Reso Audiophile Radio"@,
{
    to_string("Reso Audiophile Radio")
}

/// The station name reported before any station plays.
pub fn default_station_name() -> (r: String)
    ensures
        r@ == "Reso Radio"@,
{
    to_string("Reso Radio")
}

} // verus!
