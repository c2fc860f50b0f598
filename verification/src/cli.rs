//! The command line: the subcommands and their arguments, as plain values.
//! Parsing the arguments is done around this module.

use vstd::prelude::*;

verus! {

/// Lossless Audiophile Internet Radio Player & PipeWire Inspector for Arch Linux.
#[derive(Debug)]
pub struct Cli {
    pub command: Option<Commands>,
}

/// Available CLI subcommands.
#[derive(Debug)]
pub enum Commands {
    /// Launch the interactive full-screen TUI dashboard (default).
    Tui,
    /// List all configured radio stations.
    List(ListArgs),
    /// Play a station by ID, name, or URL.
    Play(PlayArgs),
    /// Pause active playback.
    Pause,
    /// Resume paused playback.
    Resume,
    /// Toggle pause / play.
    Toggle,
    /// Stop playback.
    Stop,
    /// Skip to the next station in catalog.
    Next,
    /// Skip to the previous station in catalog.
    Prev,
    /// Display currently playing station, track metadata, and audio specs.
    Current(CurrentArgs),
    /// Search `radio-browser.info` for lossless online radio streams.
    Search(SearchArgs),
    /// Run the 3-stage Audiophile Pipeline Inspector (Source -> PipeWire -> Hardware DAC).
    Inspect(InspectArgs),
    /// Manage lossless stream recording (~/Music/Radio/).
    Record(RecordArgs),
    /// Bookmark the currently playing track to ~/.config/reso/liked_tracks.md.
    Like,
    /// Copy current track `Artist - Title` to clipboard (Wayland / X11).
    Copy,
    /// Query or adjust PipeWire hardware volume (`wpctl`).
    Volume(VolumeArgs),
    /// Run in background headless daemon mode (MPV IPC + MPRIS2 D-Bus).
    Daemon,
}

/// Arguments of `list`.
#[derive(Debug)]
pub struct ListArgs {
    /// Show only favorite stations.
    pub favorites: bool,
    /// Output list as JSON.
    pub json: bool,
}

/// Arguments of `play`.
#[derive(Debug)]
pub struct PlayArgs {
    /// Station ID (e.g. `rp-main`), name substring, or stream URL.
    pub station: Option<String>,
    /// Auto-stop sleep timer (e.g. `45m`, `1h30m`, `300s`).
    pub sleep: Option<String>,
    /// Keep process in foreground until interrupted.
    pub foreground: bool,
}

/// Arguments of `current`.
#[derive(Debug)]
pub struct CurrentArgs {
    /// Output metadata as JSON.
    pub json: bool,
}

/// Arguments of `search`.
#[derive(Debug)]
pub struct SearchArgs {
    /// Search query term (e.g. `jazz`, `classical`, `chill`).
    pub query: String,
    /// Filter by codec (default: `FLAC`).
    pub codec: Option<String>,
    /// Filter by minimum bitrate in kbps (e.g. `1000`).
    pub bitrate: Option<u32>,
    /// Maximum results to return (default 20).
    pub limit: usize,
    /// Automatically save search results to stations.toml.
    pub add: bool,
}

/// Arguments of `inspect`.
#[derive(Debug)]
pub struct InspectArgs {
    /// Output inspection report as raw JSON.
    pub json: bool,
}

/// Arguments of `record`.
#[derive(Debug)]
pub struct RecordArgs {
    /// Recording action: `start`, `stop`, `status`, or `toggle` (default).
    pub action: String,
    /// Custom output file path.
    pub output: Option<String>,
}

/// Arguments of `volume`.
#[derive(Debug)]
pub struct VolumeArgs {
    /// Volume action: `get`, `up`, `down`, `mute`, or a percentage value like `50%` or `0.5`.
    pub action: String,
}

} // verus!
