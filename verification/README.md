# reso

A lossless internet radio player and audio pipeline inspector for Linux
(MPV → PipeWire → ALSA), with a terminal dashboard, MPRIS2 control,
stream recording and Last.fm / ListenBrainz scrobbling.

## Layout

- `src/` — the library, verified with Verus. Every function carries a
  `requires` / `ensures` contract over spec models of its data.
  - `text`, `seq_search`, `util` — text and sequence primitives, number and
    duration formatting, file-name sanitizing.
  - `config`, `events`, `json` — the station catalog and its operations,
    playback events, a plain JSON value model.
  - `alsa`, `pipewire`, `status` — the three inspector stages: parsers for
    `/proc/asound` files and `pw-dump` output, and the bit-perfect verdict;
    `report` — the text report of `reso inspect`.
  - `mpv` — decoding of MPV JSON-IPC messages and the playback state machine.
  - `dashboard`, `display` — the TUI's key handling, ticks and shown texts.
  - `api`, `scrobble`, `mpris`, `commands`, `cli` — directory URLs and
    records, the order in which search mirrors are tried, scrobble timing, signed Last.fm forms and ListenBrainz
    submissions, MPRIS properties, and the decisions of the command-line
    subcommands.
  - Calls into `serde_json` (reading `pw-dump`'s output), `md-5` (Last.fm
    signatures) and `humantime` (durations), and the few std text functions
    without a vstd specification, stand behind small trusted wrappers whose
    contracts name what they return.
- `tests/` — unit and scenario tests of the library.
- `app/` — the program around it: argument parsing (clap), files and
  processes, the MPV socket, HTTP (reqwest), D-Bus (zbus), the ratatui
  dashboard, the spectrum visualizer (realfft) and the clipboard.
