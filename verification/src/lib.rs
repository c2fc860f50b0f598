//! Reso: lossless internet radio player and audio pipeline inspector, the
//! verified core: station catalog, text parsers for ALSA and PipeWire
//! diagnostics, the MPV event state machine and the dashboard key handling.

pub mod seq_search;
pub mod text;
pub mod util;
pub mod events;
pub mod config;
pub mod json;
pub mod pipewire;
pub mod alsa;
pub mod status;
pub mod report;
pub mod mpv;
pub mod dashboard;
pub mod api;
pub mod scrobble;
pub mod mpris;
pub mod cli;
pub mod commands;
pub mod display;
