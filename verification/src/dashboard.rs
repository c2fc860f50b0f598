//! The dashboard's state machine: tabs, the station list and its filter, the
//! search box, the help modal, the sleep timer, and what each key, MPV event,
//! tick and player action does to that state.
//!
//! Each step returns the outside work it asks for (a player action to send,
//! diagnostics to refresh, the catalog to save, ...); the terminal, the
//! player and the files are handled around this module.

use vstd::prelude::*;
use crate::config::{
    added_view, lemma_added_view, lemma_toggled_view, toggled_view, AppConfig, ConfigManager,
    Station, StationView, stations_view, strings_view,
};
use crate::events::{
    AudioStreamParams, ParamsView, PlaybackState, TrackMetadata, TrackView, copy_opt_string,
    display_name_of, opt_str_eq, opt_view,
};
use crate::mpv::{EventView, MpvEvent, tracker_init};
use crate::text::{
    chars_of, contains_seq, lowercase, str_contains, str_to_lowercase, string_from_chars, to_string,
    trim, trim_vec,
};

verus! {

// ---------------------------------------------------------------------------
// Types
// ---------------------------------------------------------------------------

/// Active dashboard tab.
#[derive(Debug, Clone, Copy, PartialEq, Eq, Structural)]
pub enum ActiveTab {
    Stations,
    Search,
    Inspector,
    Liked,
}

/// A key the dashboard reacts to.
#[derive(Debug, Clone, Copy, PartialEq, Eq, Structural)]
pub enum Key {
    Char(char),
    Enter,
    Esc,
    Backspace,
    Up,
    Down,
    Home,
    End,
    PageUp,
    PageDown,
    Other,
}

/// A jump in a list: to the top, to the bottom, or a page (5 items) down or up.
#[derive(Debug, Clone, Copy, PartialEq, Eq, Structural)]
pub enum Jump {
    Top,
    Bottom,
    PageDown,
    PageUp,
}

/// The items a page move skips.
pub const PAGE_ITEMS: usize = 5;

/// User or system action dispatched to the audio engine / orchestrator.
///
/// A sleep timer is given in whole seconds; a volume is given as the bit
/// pattern of its `f64` percentage.
#[derive(Debug)]
pub enum AppAction {
    Play(Station),
    Pause,
    Resume,
    TogglePause,
    Stop,
    NextStation,
    PrevStation,
    ToggleRecord,
    StartRecord(Option<String>),
    StopRecord,
    SetSleepTimer(Option<u64>),
    VolumeUp,
    VolumeDown,
    SetVolume(u64),
    ToggleMute,
    BookmarkTrack,
    CopyTrackToClipboard,
    Search(String),
    Quit,
}

/// The model of an [`AppAction`].
pub enum ActionView {
    Play(StationView),
    Pause,
    Resume,
    TogglePause,
    Stop,
    NextStation,
    PrevStation,
    ToggleRecord,
    StartRecord(Option<Seq<char>>),
    StopRecord,
    SetSleepTimer(Option<u64>),
    VolumeUp,
    VolumeDown,
    SetVolume(u64),
    ToggleMute,
    BookmarkTrack,
    CopyTrackToClipboard,
    Search(Seq<char>),
    Quit,
}

impl View for AppAction {
    type V = ActionView;

    open spec fn view(&self) -> ActionView {
        match self {
            AppAction::Play(s) => ActionView::Play(s@),
            AppAction::Pause => ActionView::Pause,
            AppAction::Resume => ActionView::Resume,
            AppAction::TogglePause => ActionView::TogglePause,
            AppAction::Stop => ActionView::Stop,
            AppAction::NextStation => ActionView::NextStation,
            AppAction::PrevStation => ActionView::PrevStation,
            AppAction::ToggleRecord => ActionView::ToggleRecord,
            AppAction::StartRecord(p) => ActionView::StartRecord(opt_view(*p)),
            AppAction::StopRecord => ActionView::StopRecord,
            AppAction::SetSleepTimer(s) => ActionView::SetSleepTimer(*s),
            AppAction::VolumeUp => ActionView::VolumeUp,
            AppAction::VolumeDown => ActionView::VolumeDown,
            AppAction::SetVolume(v) => ActionView::SetVolume(*v),
            AppAction::ToggleMute => ActionView::ToggleMute,
            AppAction::BookmarkTrack => ActionView::BookmarkTrack,
            AppAction::CopyTrackToClipboard => ActionView::CopyTrackToClipboard,
            AppAction::Search(q) => ActionView::Search(q@),
            AppAction::Quit => ActionView::Quit,
        }
    }
}

/// Outside work a key asks for.
#[derive(Debug)]
pub enum KeyEffect {
    /// Send an action to the player loop.
    Dispatch(AppAction),
    /// Re-run the pipeline diagnostics.
    RefreshDiagnostics,
    /// Re-read the liked tracks history.
    ReloadLikedHistory,
    /// Step the hardware volume by 5%, up or down.
    AdjustVolume { up: bool },
    /// Toggle the hardware mute.
    ToggleMute,
    /// Save the station catalog.
    SaveStations,
}

/// The model of a [`KeyEffect`].
pub enum EffectView {
    Dispatch(ActionView),
    RefreshDiagnostics,
    ReloadLikedHistory,
    AdjustVolume { up: bool },
    ToggleMute,
    SaveStations,
}

impl View for KeyEffect {
    type V = EffectView;

    open spec fn view(&self) -> EffectView {
        match self {
            KeyEffect::Dispatch(a) => EffectView::Dispatch(a@),
            KeyEffect::RefreshDiagnostics => EffectView::RefreshDiagnostics,
            KeyEffect::ReloadLikedHistory => EffectView::ReloadLikedHistory,
            KeyEffect::AdjustVolume { up } => EffectView::AdjustVolume { up: *up },
            KeyEffect::ToggleMute => EffectView::ToggleMute,
            KeyEffect::SaveStations => EffectView::SaveStations,
        }
    }
}

/// The view of an optional key effect.
pub open spec fn effect_opt(e: Option<KeyEffect>) -> Option<EffectView> {
    match e {
        Some(x) => Some(x@),
        None => None,
    }
}

/// Central state of the dashboard.
pub struct Dashboard {
    pub active_tab: ActiveTab,
    pub config_manager: ConfigManager,
    pub current_station: Option<Station>,
    pub station_list_index: usize,
    pub playback_state: PlaybackState,
    pub track_metadata: TrackMetadata,
    pub stream_params: AudioStreamParams,
    pub is_recording: bool,
    pub active_recording_path: Option<String>,
    pub sleep_timer_secs_remaining: Option<u64>,
    pub filter_query: String,
    pub search_query: String,
    pub search_results: Vec<Station>,
    pub search_results_index: usize,
    pub search_input_active: bool,
    pub liked_tracks_history: Vec<String>,
    pub show_help_modal: bool,
    pub tick_count: u64,
    pub should_quit: bool,
}

/// The model of a [`Dashboard`]: its stations and texts by their views.
pub struct DashView {
    pub active_tab: ActiveTab,
    pub stations: Seq<StationView>,
    pub config: AppConfig,
    pub config_dir: String,
    pub current_station: Option<StationView>,
    pub station_list_index: usize,
    pub playback_state: PlaybackState,
    pub track_metadata: TrackView,
    pub stream_params: ParamsView,
    pub is_recording: bool,
    pub active_recording_path: Option<Seq<char>>,
    pub sleep_timer_secs_remaining: Option<u64>,
    pub filter_query: Seq<char>,
    pub search_query: Seq<char>,
    pub search_results: Seq<StationView>,
    pub search_results_index: usize,
    pub search_input_active: bool,
    pub liked_tracks_history: Seq<Seq<char>>,
    pub show_help_modal: bool,
    pub tick_count: u64,
    pub should_quit: bool,
}

impl View for Dashboard {
    type V = DashView;

    open spec fn view(&self) -> DashView {
        DashView {
            active_tab: self.active_tab,
            stations: stations_view(self.config_manager.catalog.stations@),
            config: self.config_manager.config,
            config_dir: self.config_manager.config_dir,
            current_station: match self.current_station {
                Some(s) => Some(s@),
                None => None,
            },
            station_list_index: self.station_list_index,
            playback_state: self.playback_state,
            track_metadata: self.track_metadata@,
            stream_params: self.stream_params@,
            is_recording: self.is_recording,
            active_recording_path: opt_view(self.active_recording_path),
            sleep_timer_secs_remaining: self.sleep_timer_secs_remaining,
            filter_query: self.filter_query@,
            search_query: self.search_query@,
            search_results: stations_view(self.search_results@),
            search_results_index: self.search_results_index,
            search_input_active: self.search_input_active,
            liked_tracks_history: strings_view(self.liked_tracks_history@),
            show_help_modal: self.show_help_modal,
            tick_count: self.tick_count,
            should_quit: self.should_quit,
        }
    }
}

// ---------------------------------------------------------------------------
// The station filter
// ---------------------------------------------------------------------------

/// A station matches the lower-cased query `q`: in its lower-cased name,
/// codec or one of its tags.
pub open spec fn station_matches(q: Seq<char>) -> spec_fn(StationView) -> bool {
    |s: StationView|
        contains_seq(lowercase(s.name), q) || contains_seq(lowercase(s.codec), q) || exists|
            i: int,
        |
            0 <= i < s.tags.len() && #[trigger] contains_seq(lowercase(s.tags[i]), q)
}

/// The stations shown for the filter text `query`: all of them when the
/// trimmed query is empty, else those matching its lower-cased form, in order.
pub open spec fn filtered_view(stations: Seq<StationView>, query: Seq<char>) -> Seq<StationView> {
    let q = lowercase(trim(query));
    if q.len() == 0 {
        stations
    } else {
        stations.filter(station_matches(q))
    }
}

/// The stations a list of references points to.
pub open spec fn deref_all(v: Seq<&Station>) -> Seq<Station> {
    v.map_values(|s: &Station| *s)
}

/// Whether a station matches the lower-cased query `q`.
fn station_matches_exec(s: &Station, q: &str) -> (r: bool)
    ensures
        r == station_matches(q@)(s@),
{
    let n = str_to_lowercase(s.name.as_str());
    if str_contains(n.as_str(), q) {
        return true;
    }
    let c = str_to_lowercase(s.codec.as_str());
    if str_contains(c.as_str(), q) {
        return true;
    }
    let mut i: usize = 0;
    while i < s.tags.len()
        invariant
            i <= s.tags@.len(),
            !contains_seq(lowercase(s.name@), q@),
            !contains_seq(lowercase(s.codec@), q@),
            forall|j: int| 0 <= j < i ==> !contains_seq(lowercase(#[trigger] s@.tags[j]), q@),
        decreases s.tags@.len() - i,
    {
        let t = str_to_lowercase(s.tags[i].as_str());
        assert(s@.tags[i as int] == s.tags@[i as int]@);
        if str_contains(t.as_str(), q) {
            return true;
        }
        i = i + 1;
    }
    false
}

/// A text of more than `max` characters cut to its first `max - 1`
/// followed by an ellipsis `…`, so `max` characters in all (the empty text
/// when `max` is 0); a shorter text as it is.
pub open spec fn truncated(s: Seq<char>, max: nat) -> Seq<char> {
    if s.len() <= max {
        s
    } else if max == 0 {
        Seq::empty()
    } else {
        s.subrange(0, max - 1) + seq!['\u{2026}']
    }
}

/// Truncates a string to max_len characters with ellipsis.
pub fn truncate_str(s: &str, max_len: usize) -> (r: String)
    ensures
        r@ == truncated(s@, max_len as nat),
        r@.len() <= max_len,
{
    let c = chars_of(s);
    if c.len() <= max_len {
        string_from_chars(c.as_slice())
    } else if max_len == 0 {
        String::new()
    } else {
        let keep: usize = max_len - 1;
        let mut out: Vec<char> = Vec::new();
        let mut i: usize = 0;
        while i < keep
            invariant
                keep < c@.len(),
                i <= keep,
                out@ == c@.subrange(0, i as int),
            decreases keep - i,
        {
            out.push(c[i]);
            i = i + 1;
            assert(out@ =~= c@.subrange(0, i as int));
        }
        out.push('\u{2026}');
        assert(out@ =~= c@.subrange(0, keep as int) + seq!['\u{2026}']);
        string_from_chars(out.as_slice())
    }
}

// ---------------------------------------------------------------------------
// Keys
// ---------------------------------------------------------------------------

/// The index after moving down a list of `len` items, wrapping to the top.
pub open spec fn nav_down(i: usize, len: nat) -> usize {
    if len > 0 {
        ((i + 1) % (len as int)) as usize
    } else {
        i
    }
}

/// The index after moving up a list of `len` items, wrapping to the bottom.
pub open spec fn nav_up(i: usize, len: nat) -> usize {
    if len > 0 {
        if i == 0 {
            (len - 1) as usize
        } else {
            (i - 1) as usize
        }
    } else {
        i
    }
}

/// The index after a jump in a list of `len` items: the top, the bottom, a
/// page down stopping at the bottom, a page up stopping at the top; an empty
/// list keeps the index.
pub open spec fn nav_jump(i: usize, len: nat, j: Jump) -> usize {
    if len > 0 {
        match j {
            Jump::Top => 0,
            Jump::Bottom => (len - 1) as usize,
            Jump::PageDown => if i + PAGE_ITEMS < len - 1 {
                (i + PAGE_ITEMS) as usize
            } else {
                (len - 1) as usize
            },
            Jump::PageUp => if i >= PAGE_ITEMS {
                (i - PAGE_ITEMS) as usize
            } else {
                0
            },
        }
    } else {
        i
    }
}

/// The index after a jump in a list of `len` items.
fn jump_index(i: usize, len: usize, j: Jump) -> (r: usize)
    ensures
        r == nav_jump(i, len as nat, j),
{
    if len == 0 {
        return i;
    }
    match j {
        Jump::Top => 0,
        Jump::Bottom => len - 1,
        Jump::PageDown => if i < len - 1 && len - 1 - i > PAGE_ITEMS {
            i + PAGE_ITEMS
        } else {
            len - 1
        },
        Jump::PageUp => if i >= PAGE_ITEMS {
            i - PAGE_ITEMS
        } else {
            0
        },
    }
}

/// A step that changes nothing and asks for nothing.
pub open spec fn idle_step(d: DashView) -> (DashView, Option<EffectView>) {
    (d, None)
}

/// A step that only asks for the player action `a`.
pub open spec fn send(d: DashView, a: ActionView) -> (DashView, Option<EffectView>) {
    (d, Some(EffectView::Dispatch(a)))
}

/// What a key does in the search box.
pub open spec fn search_box_key(d: DashView, key: Key) -> (DashView, Option<EffectView>) {
    match key {
        Key::Esc => (DashView { search_input_active: false, ..d }, None),
        Key::Enter => (
            DashView { search_input_active: false, ..d },
            if trim(d.search_query).len() > 0 {
                Some(EffectView::Dispatch(ActionView::Search(d.search_query)))
            } else {
                None
            },
        ),
        Key::Backspace => (
            DashView {
                search_query: if d.search_query.len() > 0 {
                    d.search_query.drop_last()
                } else {
                    d.search_query
                },
                ..d
            },
            None,
        ),
        Key::Char(c) => (DashView { search_query: d.search_query.push(c), ..d }, None),
        _ => idle_step(d),
    }
}

/// What Enter does outside the search box: play the selected station of the
/// list on screen.
pub open spec fn enter_key(d: DashView) -> (DashView, Option<EffectView>) {
    match d.active_tab {
        ActiveTab::Stations => {
            let f = filtered_view(d.stations, d.filter_query);
            if d.station_list_index < f.len() {
                send(d, ActionView::Play(f[d.station_list_index as int]))
            } else {
                idle_step(d)
            }
        },
        ActiveTab::Search => if d.search_results_index < d.search_results.len() {
            send(d, ActionView::Play(d.search_results[d.search_results_index as int]))
        } else {
            idle_step(d)
        },
        _ => idle_step(d),
    }
}

/// What a vertical move does: down (`true`) or up in the list of the active tab.
pub open spec fn move_key(d: DashView, down: bool) -> (DashView, Option<EffectView>) {
    match d.active_tab {
        ActiveTab::Stations => {
            let len = filtered_view(d.stations, d.filter_query).len();
            (
                DashView {
                    station_list_index: if down {
                        nav_down(d.station_list_index, len)
                    } else {
                        nav_up(d.station_list_index, len)
                    },
                    ..d
                },
                None,
            )
        },
        ActiveTab::Search => {
            let len = d.search_results.len();
            (
                DashView {
                    search_results_index: if down {
                        nav_down(d.search_results_index, len)
                    } else {
                        nav_up(d.search_results_index, len)
                    },
                    ..d
                },
                None,
            )
        },
        _ => idle_step(d),
    }
}

/// What a jump does in the list of the active tab.
pub open spec fn jump_key(d: DashView, j: Jump) -> (DashView, Option<EffectView>) {
    match d.active_tab {
        ActiveTab::Stations => {
            let len = filtered_view(d.stations, d.filter_query).len();
            (DashView { station_list_index: nav_jump(d.station_list_index, len, j), ..d }, None)
        },
        ActiveTab::Search => {
            let len = d.search_results.len();
            (DashView { search_results_index: nav_jump(d.search_results_index, len, j), ..d }, None)
        },
        _ => idle_step(d),
    }
}

/// What a key does on the dashboard itself (no modal, no search box).
pub open spec fn global_key(d: DashView, key: Key) -> (DashView, Option<EffectView>) {
    match key {
        Key::Esc => (DashView { should_quit: true, ..d }, None),
        Key::Enter => enter_key(d),
        Key::Down => move_key(d, true),
        Key::Up => move_key(d, false),
        Key::Home => jump_key(d, Jump::Top),
        Key::End => jump_key(d, Jump::Bottom),
        Key::PageDown => jump_key(d, Jump::PageDown),
        Key::PageUp => jump_key(d, Jump::PageUp),
        Key::Char(c) => {
            if c == 'q' {
                (DashView { should_quit: true, ..d }, None)
            } else if c == '?' {
                (DashView { show_help_modal: true, ..d }, None)
            } else if c == '1' {
                (DashView { active_tab: ActiveTab::Stations, ..d }, None)
            } else if c == '2' {
                (DashView { active_tab: ActiveTab::Search, search_input_active: true, ..d }, None)
            } else if c == '3' {
                (
                    DashView { active_tab: ActiveTab::Inspector, ..d },
                    Some(EffectView::RefreshDiagnostics),
                )
            } else if c == '4' {
                (
                    DashView { active_tab: ActiveTab::Liked, ..d },
                    Some(EffectView::ReloadLikedHistory),
                )
            } else if c == ' ' {
                send(d, ActionView::TogglePause)
            } else if c == 's' {
                send(d, ActionView::Stop)
            } else if c == 'n' {
                send(d, ActionView::NextStation)
            } else if c == 'p' {
                send(d, ActionView::PrevStation)
            } else if c == '+' || c == '=' {
                (d, Some(EffectView::AdjustVolume { up: true }))
            } else if c == '-' || c == '_' {
                (d, Some(EffectView::AdjustVolume { up: false }))
            } else if c == 'm' {
                (d, Some(EffectView::ToggleMute))
            } else if c == 'f' {
                let f = filtered_view(d.stations, d.filter_query);
                if d.station_list_index < f.len() {
                    (
                        DashView {
                            stations: toggled_view(d.stations, f[d.station_list_index as int].id),
                            ..d
                        },
                        Some(EffectView::SaveStations),
                    )
                } else {
                    idle_step(d)
                }
            } else if c == 'r' {
                send(d, ActionView::ToggleRecord)
            } else if c == 'l' {
                send(d, ActionView::BookmarkTrack)
            } else if c == 'c' {
                send(d, ActionView::CopyTrackToClipboard)
            } else if c == 'a' && d.active_tab == ActiveTab::Search {
                if d.search_results_index < d.search_results.len() {
                    (
                        DashView {
                            stations: added_view(
                                d.stations,
                                d.search_results[d.search_results_index as int],
                            ),
                            ..d
                        },
                        Some(EffectView::SaveStations),
                    )
                } else {
                    idle_step(d)
                }
            } else if c == '/' {
                (DashView { active_tab: ActiveTab::Search, search_input_active: true, ..d }, None)
            } else if c == 'g' {
                jump_key(d, Jump::Top)
            } else if c == 'G' {
                jump_key(d, Jump::Bottom)
            } else if c == 'j' {
                move_key(d, true)
            } else if c == 'k' {
                move_key(d, false)
            } else {
                idle_step(d)
            }
        },
        _ => idle_step(d),
    }
}

/// What a key does: the help modal takes every key first (Esc, `?` and `q`
/// close it), then the search box while it has focus, then the dashboard.
pub open spec fn key_step(d: DashView, key: Key) -> (DashView, Option<EffectView>) {
    if d.show_help_modal {
        if key == Key::Esc || key == Key::Char('?') || key == Key::Char('q') {
            (DashView { show_help_modal: false, ..d }, None)
        } else {
            idle_step(d)
        }
    } else if d.search_input_active {
        search_box_key(d, key)
    } else {
        global_key(d, key)
    }
}

impl Dashboard {
    /// Returns the filtered list of stations matching `filter_query`.
    pub fn filtered_stations(&self) -> (r: Vec<&Station>)
        ensures
            stations_view(deref_all(r@)) == filtered_view(
                stations_view(self.config_manager.catalog.stations@),
                self.filter_query@,
            ),
    {
        let stations = &self.config_manager.catalog.stations;
        let q0 = chars_of(self.filter_query.as_str());
        let qt = trim_vec(q0.as_slice());
        let qs = string_from_chars(qt.as_slice());
        let q = str_to_lowercase(qs.as_str());
        let qc = chars_of(q.as_str());
        let all = qc.len() == 0;
        let ghost pred = station_matches(q@);
        let mut out: Vec<&Station> = Vec::new();
        let mut i: usize = 0;
        while i < stations.len()
            invariant
                stations@ == self.config_manager.catalog.stations@,
                q@ == lowercase(trim(self.filter_query@)),
                all == (q@.len() == 0),
                pred == station_matches(q@),
                i <= stations@.len(),
                all ==> stations_view(deref_all(out@)) == stations_view(stations@).subrange(0, i as int),
                !all ==> stations_view(deref_all(out@)) == stations_view(stations@).subrange(
                    0,
                    i as int,
                ).filter(pred),
            decreases stations@.len() - i,
        {
            let ghost before = out@;
            let keep = if all {
                true
            } else {
                station_matches_exec(&stations[i], q.as_str())
            };
            if keep {
                out.push(&stations[i]);
            }
            proof {
                let sv = stations_view(stations@);
                let s1 = sv.subrange(0, i + 1);
                assert(s1.drop_last() =~= sv.subrange(0, i as int));
                assert(s1.last() == stations@[i as int]@);
                reveal_with_fuel(Seq::filter, 1);
                if keep {
                    assert(stations_view(deref_all(out@)) =~= stations_view(deref_all(before)).push(
                        stations@[i as int]@,
                    ));
                } else {
                    assert(stations_view(deref_all(out@)) =~= stations_view(deref_all(before)));
                }
                if all {
                    assert(stations_view(deref_all(out@)) =~= s1);
                }
            }
            i = i + 1;
        }
        assert(stations_view(stations@).subrange(0, i as int) =~= stations_view(stations@));
        out
    }
}

impl Dashboard {
    /// Jump in the list of the active tab.
    fn jump_selection(&mut self, j: Jump)
        ensures
            final(self)@ == jump_key(old(self)@, j).0,
    {
        match self.active_tab {
            ActiveTab::Stations => {
                let len = self.filtered_stations().len();
                self.station_list_index = jump_index(self.station_list_index, len, j);
            },
            ActiveTab::Search => {
                let len = self.search_results.len();
                self.search_results_index = jump_index(self.search_results_index, len, j);
            },
            _ => {},
        }
    }

    /// Move down (`true`) or up in the list of the active tab.
    fn move_selection(&mut self, down: bool)
        ensures
            final(self)@ == move_key(old(self)@, down).0,
    {
        match self.active_tab {
            ActiveTab::Stations => {
                let len = self.filtered_stations().len();
                if len > 0 {
                    if down {
                        self.station_list_index = (self.station_list_index % len + 1) % len;
                        proof {
                            let i = old(self).station_list_index as int;
                            assert((i % (len as int) + 1) % (len as int) == (i + 1) % (len as int))
                                by (nonlinear_arith)
                                requires
                                    len > 0,
                                    i >= 0,
                            {
                                vstd::arithmetic::div_mod::lemma_add_mod_noop(i, 1, len as int);
                            }
                        }
                    } else if self.station_list_index == 0 {
                        self.station_list_index = len - 1;
                    } else {
                        self.station_list_index = self.station_list_index - 1;
                    }
                }
            },
            ActiveTab::Search => {
                let len = self.search_results.len();
                if len > 0 {
                    if down {
                        self.search_results_index = (self.search_results_index % len + 1) % len;
                        proof {
                            let i = old(self).search_results_index as int;
                            assert((i % (len as int) + 1) % (len as int) == (i + 1) % (len as int))
                                by (nonlinear_arith)
                                requires
                                    len > 0,
                                    i >= 0,
                            {
                                vstd::arithmetic::div_mod::lemma_add_mod_noop(i, 1, len as int);
                            }
                        }
                    } else if self.search_results_index == 0 {
                        self.search_results_index = len - 1;
                    } else {
                        self.search_results_index = self.search_results_index - 1;
                    }
                }
            },
            _ => {},
        }
    }

    /// A key typed while the search box has focus.
    fn search_box_key(&mut self, key: Key) -> (r: Option<KeyEffect>)
        ensures
            (final(self)@, effect_opt(r)) == search_box_key(old(self)@, key),
    {
        match key {
            Key::Esc => {
                self.search_input_active = false;
                None
            },
            Key::Enter => {
                self.search_input_active = false;
                let qc = chars_of(self.search_query.as_str());
                let qt = trim_vec(qc.as_slice());
                if qt.len() > 0 {
                    Some(KeyEffect::Dispatch(AppAction::Search(self.search_query.clone())))
                } else {
                    None
                }
            },
            Key::Backspace => {
                let mut qc = chars_of(self.search_query.as_str());
                if qc.len() > 0 {
                    qc.pop();
                }
                self.search_query = string_from_chars(qc.as_slice());
                None
            },
            Key::Char(c) => {
                let mut qc = chars_of(self.search_query.as_str());
                qc.push(c);
                self.search_query = string_from_chars(qc.as_slice());
                None
            },
            _ => None,
        }
    }

    /// Enter outside the search box: play the selected station.
    fn enter_key(&mut self) -> (r: Option<KeyEffect>)
        ensures
            (final(self)@, effect_opt(r)) == enter_key(old(self)@),
    {
        match self.active_tab {
            ActiveTab::Stations => {
                let filtered = self.filtered_stations();
                if self.station_list_index < filtered.len() {
                    let st = filtered[self.station_list_index].copy();
                    assert(stations_view(deref_all(filtered@))[self.station_list_index as int]
                        == st@);
                    Some(KeyEffect::Dispatch(AppAction::Play(st)))
                } else {
                    None
                }
            },
            ActiveTab::Search => {
                if self.search_results_index < self.search_results.len() {
                    let st = self.search_results[self.search_results_index].copy();
                    Some(KeyEffect::Dispatch(AppAction::Play(st)))
                } else {
                    None
                }
            },
            _ => None,
        }
    }

    /// Handles a key press: the new state, and the outside work it asks for.
    pub fn handle_key_event(&mut self, key: Key) -> (r: Option<KeyEffect>)
        ensures
            (final(self)@, effect_opt(r)) == key_step(old(self)@, key),
    {
        if self.show_help_modal {
            if key == Key::Esc || key == Key::Char('?') || key == Key::Char('q') {
                self.show_help_modal = false;
            }
            return None;
        }
        if self.search_input_active {
            return self.search_box_key(key);
        }
        self.global_key(key)
    }

    /// A character key on the dashboard itself.
    fn char_key(&mut self, c: char) -> (r: Option<KeyEffect>)
        ensures
            (final(self)@, effect_opt(r)) == global_key(old(self)@, Key::Char(c)),
    {
        if c == 'q' {
            self.should_quit = true;
            None
        } else if c == '?' {
            self.show_help_modal = true;
            None
        } else if c == '1' {
            self.active_tab = ActiveTab::Stations;
            None
        } else if c == '2' {
            self.active_tab = ActiveTab::Search;
            self.search_input_active = true;
            None
        } else if c == '3' {
            self.active_tab = ActiveTab::Inspector;
            Some(KeyEffect::RefreshDiagnostics)
        } else if c == '4' {
            self.active_tab = ActiveTab::Liked;
            Some(KeyEffect::ReloadLikedHistory)
        } else if c == ' ' {
            Some(KeyEffect::Dispatch(AppAction::TogglePause))
        } else if c == 's' {
            Some(KeyEffect::Dispatch(AppAction::Stop))
        } else if c == 'n' {
            Some(KeyEffect::Dispatch(AppAction::NextStation))
        } else if c == 'p' {
            Some(KeyEffect::Dispatch(AppAction::PrevStation))
        } else if c == '+' || c == '=' {
            Some(KeyEffect::AdjustVolume { up: true })
        } else if c == '-' || c == '_' {
            Some(KeyEffect::AdjustVolume { up: false })
        } else if c == 'm' {
            Some(KeyEffect::ToggleMute)
        } else if c == 'f' {
            let filtered = self.filtered_stations();
            if self.station_list_index < filtered.len() {
                let id = filtered[self.station_list_index].id.clone();
                proof {
                    assert(stations_view(deref_all(filtered@))[self.station_list_index as int].id
                        == id@);
                    lemma_toggled_view(self.config_manager.catalog.stations@, id@);
                }
                self.config_manager.toggle_favorite(id.as_str());
                Some(KeyEffect::SaveStations)
            } else {
                None
            }
        } else if c == 'r' {
            Some(KeyEffect::Dispatch(AppAction::ToggleRecord))
        } else if c == 'l' {
            Some(KeyEffect::Dispatch(AppAction::BookmarkTrack))
        } else if c == 'c' {
            Some(KeyEffect::Dispatch(AppAction::CopyTrackToClipboard))
        } else if c == 'a' && self.active_tab == ActiveTab::Search {
            if self.search_results_index < self.search_results.len() {
                let st = self.search_results[self.search_results_index].copy();
                proof {
                    lemma_added_view(self.config_manager.catalog.stations@, st);
                }
                self.config_manager.add_station(st);
                Some(KeyEffect::SaveStations)
            } else {
                None
            }
        } else if c == '/' {
            self.active_tab = ActiveTab::Search;
            self.search_input_active = true;
            None
        } else if c == 'g' {
            self.jump_selection(Jump::Top);
            None
        } else if c == 'G' {
            self.jump_selection(Jump::Bottom);
            None
        } else if c == 'j' {
            self.move_selection(true);
            None
        } else if c == 'k' {
            self.move_selection(false);
            None
        } else {
            None
        }
    }

    /// A key on the dashboard itself.
    fn global_key(&mut self, key: Key) -> (r: Option<KeyEffect>)
        ensures
            (final(self)@, effect_opt(r)) == global_key(old(self)@, key),
    {
        match key {
            Key::Esc => {
                self.should_quit = true;
                None
            },
            Key::Enter => self.enter_key(),
            Key::Down => {
                self.move_selection(true);
                None
            },
            Key::Up => {
                self.move_selection(false);
                None
            },
            Key::Home => {
                self.jump_selection(Jump::Top);
                None
            },
            Key::End => {
                self.jump_selection(Jump::Bottom);
                None
            },
            Key::PageDown => {
                self.jump_selection(Jump::PageDown);
                None
            },
            Key::PageUp => {
                self.jump_selection(Jump::PageUp);
                None
            },
            Key::Char(c) => self.char_key(c),
            _ => None,
        }
    }
}

// ---------------------------------------------------------------------------
// Player events, ticks and actions
// ---------------------------------------------------------------------------

/// Outside work an MPV event asks for.
#[derive(Debug, Clone, Copy, PartialEq, Eq, Structural)]
pub enum MpvReaction {
    /// Nothing to do.
    Nothing,
    /// Publish the playback state to MPRIS.
    UpdateMpris,
    /// A new track: tell the scrobbler and publish it to MPRIS.
    TrackChanged,
    /// Re-run the pipeline diagnostics.
    RefreshDiagnostics,
}

/// What an MPV event does to the dashboard, and the work it asks for.
pub open spec fn mpv_event_step(d: DashView, e: EventView) -> (DashView, MpvReaction) {
    match e {
        EventView::State(s) => (DashView { playback_state: s, ..d }, MpvReaction::UpdateMpris),
        EventView::Metadata(m) => (DashView { track_metadata: m, ..d }, MpvReaction::TrackChanged),
        EventView::AudioParams(p) => (
            DashView { stream_params: p, ..d },
            MpvReaction::RefreshDiagnostics,
        ),
        EventView::Volume(_) => (d, MpvReaction::RefreshDiagnostics),
        EventView::RecordingState { is_recording, path } => (
            DashView { is_recording: is_recording, active_recording_path: path, ..d },
            MpvReaction::Nothing,
        ),
        EventView::Error(_) => (d, MpvReaction::Nothing),
    }
}

/// The outside work of a tick: the sleep timer ran out (stop playback),
/// diagnostics are due, and the Radio Paradise channel to poll.
pub struct TickPlan {
    pub stop_requested: bool,
    pub refresh_diagnostics: bool,
    pub poll_channel: Option<u32>,
}

/// What a tick of 50 ms does: the tick counter moves on (wrapping); once a
/// second (every 20 ticks) the sleep timer counts down, stopping playback
/// when it runs out, diagnostics are refreshed every 5 seconds while playing,
/// and a Radio Paradise station is polled for its track.
pub open spec fn tick_step(d: DashView) -> (DashView, bool, bool, Option<u32>) {
    let tc = if d.tick_count == u64::MAX {
        0
    } else {
        (d.tick_count + 1) as u64
    };
    if tc % 20 == 0 {
        let (timer, stop) = match d.sleep_timer_secs_remaining {
            Some(secs) => if secs > 1 {
                (Some((secs - 1) as u64), false)
            } else {
                (None, true)
            },
            None => (None, false),
        };
        (
            DashView { tick_count: tc, sleep_timer_secs_remaining: timer, ..d },
            stop,
            d.playback_state == PlaybackState::Playing && tc % 100 == 0,
            match d.current_station {
                Some(s) => s.rp_channel,
                None => None,
            },
        )
    } else {
        (DashView { tick_count: tc, ..d }, false, false, None)
    }
}

/// The position after moving forward (`true`) or back through `len` stations, wrapping.
pub open spec fn cycle_index(i: usize, len: nat, forward: bool) -> usize {
    if forward {
        nav_down(i, len)
    } else {
        nav_up(i, len)
    }
}

/// The catalog position after `k` moves to the next (`forward`) or previous
/// station, starting at `i`.
pub open spec fn cycle_steps(i: usize, len: nat, forward: bool, k: nat) -> usize
    decreases k,
{
    if k == 0 {
        i
    } else {
        cycle_index(cycle_steps(i, len, forward, (k - 1) as nat), len, forward)
    }
}

/// The dashboard after one move to the next (`forward`) or previous station
/// of its catalog: that station is selected and made current; an empty
/// catalog changes nothing.
pub open spec fn cycle_view(o: DashView, forward: bool) -> DashView {
    let len = o.stations.len();
    if len > 0 {
        let k = cycle_index(o.station_list_index, len, forward);
        DashView { station_list_index: k, current_station: Some(o.stations[k as int]), ..o }
    } else {
        o
    }
}

/// The dashboard after `k` such moves.
pub open spec fn cycled_view(d: DashView, forward: bool, k: nat) -> DashView
    decreases k,
{
    if k == 0 {
        d
    } else {
        cycle_view(cycled_view(d, forward, (k - 1) as nat), forward)
    }
}

/// The fields of a bookmark line for the current track.
pub struct BookmarkFields {
    pub station: String,
    pub artist: String,
    pub title: String,
    pub album: Option<String>,
    pub codec: Option<String>,
    pub sample_rate: Option<u32>,
}

/// The model of [`BookmarkFields`].
pub struct BookmarkView {
    pub station: Seq<char>,
    pub artist: Seq<char>,
    pub title: Seq<char>,
    pub album: Option<Seq<char>>,
    pub codec: Option<Seq<char>>,
    pub sample_rate: Option<u32>,
}

impl View for BookmarkFields {
    type V = BookmarkView;

    open spec fn view(&self) -> BookmarkView {
        BookmarkView {
            station: self.station@,
            artist: self.artist@,
            title: self.title@,
            album: opt_view(self.album),
            codec: opt_view(self.codec),
            sample_rate: self.sample_rate,
        }
    }
}

/// An optional text, or `default`.
pub open spec fn or_default(o: Option<Seq<char>>, default: Seq<char>) -> Seq<char> {
    match o {
        Some(s) => s,
        None => default,
    }
}

/// What a bookmark records of the current track: the station (or `Reso`),
/// the artist (or `Unknown Artist`), the title (or the raw title, or `Unknown
/// Title`), the album, the codec unless empty and the rate unless zero.
pub open spec fn bookmark_of(d: DashView) -> BookmarkView {
    BookmarkView {
        station: match d.current_station {
            Some(s) => s.name,
            None => "Reso"@,
        },
        artist: or_default(d.track_metadata.artist, "Unknown Artist"@),
        title: match d.track_metadata.title {
            Some(t) => t,
            None => or_default(d.track_metadata.raw_title, "Unknown Title"@),
        },
        album: d.track_metadata.album,
        codec: if d.stream_params.codec.len() == 0 {
            None
        } else {
            Some(d.stream_params.codec)
        },
        sample_rate: if d.stream_params.sample_rate == 0 {
            None
        } else {
            Some(d.stream_params.sample_rate)
        },
    }
}

/// The dashboard at start: the stations tab, nothing playing, nothing typed.
pub open spec fn dashboard_init(cm: ConfigManager) -> DashView {
    DashView {
        active_tab: ActiveTab::Stations,
        stations: stations_view(cm.catalog.stations@),
        config: cm.config,
        config_dir: cm.config_dir,
        current_station: None,
        station_list_index: 0,
        playback_state: PlaybackState::Stopped,
        track_metadata: tracker_init().metadata,
        stream_params: tracker_init().params,
        is_recording: false,
        active_recording_path: None,
        sleep_timer_secs_remaining: None,
        filter_query: Seq::empty(),
        search_query: Seq::empty(),
        search_results: Seq::empty(),
        search_results_index: 0,
        search_input_active: false,
        liked_tracks_history: Seq::empty(),
        show_help_modal: false,
        tick_count: 0,
        should_quit: false,
    }
}

impl Dashboard {
    /// The dashboard at start, over the configuration manager `config_manager`.
    pub fn new(config_manager: ConfigManager) -> (r: Dashboard)
        ensures
            r@ == dashboard_init(config_manager),
    {
        let r = Dashboard {
            active_tab: ActiveTab::Stations,
            config_manager,
            current_station: None,
            station_list_index: 0,
            playback_state: PlaybackState::Stopped,
            track_metadata: TrackMetadata::empty(),
            stream_params: AudioStreamParams::empty(),
            is_recording: false,
            active_recording_path: None,
            sleep_timer_secs_remaining: None,
            filter_query: String::new(),
            search_query: String::new(),
            search_results: Vec::new(),
            search_results_index: 0,
            search_input_active: false,
            liked_tracks_history: Vec::new(),
            show_help_modal: false,
            tick_count: 0,
            should_quit: false,
        };
        assert(r@.stream_params.codec =~= Seq::<char>::empty());
        assert(r@.search_results =~= Seq::<StationView>::empty());
        assert(r@.liked_tracks_history =~= Seq::<Seq<char>>::empty());
        r
    }

    /// Handles MPV IPC events pushed asynchronously.
    pub fn handle_mpv_event(&mut self, event: MpvEvent) -> (r: MpvReaction)
        ensures
            (final(self)@, r) == mpv_event_step(old(self)@, event@),
    {
        match event {
            MpvEvent::State(s) => {
                self.playback_state = s;
                MpvReaction::UpdateMpris
            },
            MpvEvent::Metadata(m) => {
                self.track_metadata = m;
                MpvReaction::TrackChanged
            },
            MpvEvent::AudioParams(p) => {
                self.stream_params = p;
                MpvReaction::RefreshDiagnostics
            },
            MpvEvent::Volume(_) => MpvReaction::RefreshDiagnostics,
            MpvEvent::RecordingState { is_recording, path } => {
                self.is_recording = is_recording;
                self.active_recording_path = path;
                MpvReaction::Nothing
            },
            MpvEvent::Error(_) => MpvReaction::Nothing,
        }
    }

    /// Periodic UI tick (invoked every 50ms).
    pub fn on_tick(&mut self) -> (r: TickPlan)
        ensures
            (final(self)@, r.stop_requested, r.refresh_diagnostics, r.poll_channel) == tick_step(
                old(self)@,
            ),
    {
        self.tick_count = self.tick_count.wrapping_add(1);
        if self.tick_count % 20 == 0 {
            let mut stop = false;
            match self.sleep_timer_secs_remaining {
                Some(secs) => {
                    if secs > 1 {
                        self.sleep_timer_secs_remaining = Some(secs - 1);
                    } else {
                        self.sleep_timer_secs_remaining = None;
                        stop = true;
                    }
                },
                None => {},
            }
            let refresh = self.playback_state == PlaybackState::Playing && self.tick_count % 100
                == 0;
            let poll = match &self.current_station {
                Some(st) => st.rp_channel,
                None => None,
            };
            TickPlan { stop_requested: stop, refresh_diagnostics: refresh, poll_channel: poll }
        } else {
            TickPlan { stop_requested: false, refresh_diagnostics: false, poll_channel: None }
        }
    }

    /// Takes in the track Radio Paradise reports: it replaces the current
    /// metadata when its title differs; returns whether it did.
    pub fn apply_now_playing(&mut self, rp_meta: TrackMetadata) -> (r: bool)
        ensures
            r == (old(self)@.track_metadata.title != rp_meta@.title),
            final(self)@ == (if r {
                DashView { track_metadata: rp_meta@, ..old(self)@ }
            } else {
                old(self)@
            }),
    {
        if !opt_str_eq(&self.track_metadata.title, &rp_meta.title) {
            self.track_metadata = rp_meta;
            true
        } else {
            false
        }
    }

    /// Moves to the next (`true`) or previous station of the catalog, wrapping,
    /// and makes it the current station; returns it, or `None` for an empty catalog.
    pub fn cycle_station(&mut self, forward: bool) -> (r: Option<Station>)
        requires
            forward || old(self)@.station_list_index <= old(self)@.stations.len(),
        ensures
            final(self)@ == cycle_view(old(self)@, forward),
            match r {
                Some(st) => final(self)@.current_station == Some(st@),
                None => old(self)@.stations.len() == 0,
            },
    {
        let total = self.config_manager.catalog.stations.len();
        if total == 0 {
            return None;
        }
        if forward {
            self.station_list_index = (self.station_list_index % total + 1) % total;
            proof {
                let i = old(self).station_list_index as int;
                assert((i % (total as int) + 1) % (total as int) == (i + 1) % (total as int))
                    by (nonlinear_arith)
                    requires
                        total > 0,
                        i >= 0,
                {
                    vstd::arithmetic::div_mod::lemma_add_mod_noop(i, 1, total as int);
                }
            }
        } else if self.station_list_index == 0 {
            self.station_list_index = total - 1;
        } else {
            self.station_list_index = self.station_list_index - 1;
        }
        assert(self.station_list_index < total);
        let st = self.config_manager.catalog.stations[self.station_list_index].copy();
        assert(stations_view(self.config_manager.catalog.stations@)[self.station_list_index as int]
            == st@);
        self.current_station = Some(st.copy());
        Some(st)
    }

    /// The fields of a bookmark line for the current track.
    pub fn bookmark_fields(&self) -> (r: BookmarkFields)
        ensures
            r@ == bookmark_of(self@),
    {
        let station = match &self.current_station {
            Some(s) => s.name.clone(),
            None => to_string("Reso"),
        };
        let artist = match &self.track_metadata.artist {
            Some(a) => a.clone(),
            None => to_string("Unknown Artist"),
        };
        let title = match &self.track_metadata.title {
            Some(t) => t.clone(),
            None => match &self.track_metadata.raw_title {
                Some(t) => t.clone(),
                None => to_string("Unknown Title"),
            },
        };
        let codec_chars = chars_of(self.stream_params.codec.as_str());
        BookmarkFields {
            station,
            artist,
            title,
            album: copy_opt_string(&self.track_metadata.album),
            codec: if codec_chars.len() == 0 {
                None
            } else {
                Some(self.stream_params.codec.clone())
            },
            sample_rate: if self.stream_params.sample_rate == 0 {
                None
            } else {
                Some(self.stream_params.sample_rate)
            },
        }
    }

    /// The station name (or `Stream`) and track name a recording is labelled with.
    pub fn recording_labels(&self) -> (r: (String, String))
        ensures
            r.0@ == (match self@.current_station {
                Some(s) => s.name,
                None => "Stream"@,
            }),
            r.1@ == display_name_of(self@.track_metadata),
    {
        let station = match &self.current_station {
            Some(s) => s.name.clone(),
            None => to_string("Stream"),
        };
        (station, self.track_metadata.display_name())
    }
}

/// A selection kept within a list of `len` items: the last item when it lies past the end.
pub open spec fn clamped(i: usize, len: nat) -> usize {
    if len > 0 && i >= len {
        (len - 1) as usize
    } else {
        i
    }
}

impl Dashboard {
    /// Keeps the selections of the station list on screen and of the search
    /// results within them, as the lists are drawn.
    pub fn clamp_selections(&mut self)
        ensures
            final(self)@ == (DashView {
                station_list_index: clamped(
                    old(self)@.station_list_index,
                    filtered_view(old(self)@.stations, old(self)@.filter_query).len(),
                ),
                search_results_index: clamped(
                    old(self)@.search_results_index,
                    old(self)@.search_results.len(),
                ),
                ..old(self)@
            }),
    {
        let len = self.filtered_stations().len();
        if len > 0 && self.station_list_index >= len {
            self.station_list_index = len - 1;
        }
        let slen = self.search_results.len();
        if slen > 0 && self.search_results_index >= slen {
            self.search_results_index = slen - 1;
        }
    }
}

// ---------------------------------------------------------------------------
// Laws
// ---------------------------------------------------------------------------

/// Moving down then up a non-empty list returns to the same position, and so
/// does moving up then down.
pub proof fn lemma_nav_down_up(i: usize, len: nat)
    requires
        i < len,
        len <= usize::MAX,
    ensures
        nav_up(nav_down(i, len), len) == i,
        nav_down(nav_up(i, len), len) == i,
        nav_down(i, len) < len,
        nav_up(i, len) < len,
{
    if i + 1 < len {
        assert((i + 1) % (len as int) == i + 1) by {
            vstd::arithmetic::div_mod::lemma_small_mod((i + 1) as nat, len);
        }
    } else {
        assert((i + 1) % (len as int) == 0) by {
            vstd::arithmetic::div_mod::lemma_mod_self_0(len as int);
        }
    }
    if i > 0 {
        assert((i as int) % (len as int) == i as int) by {
            vstd::arithmetic::div_mod::lemma_small_mod(i as nat, len);
        }
    } else {
        assert(len as int % (len as int) == 0) by {
            vstd::arithmetic::div_mod::lemma_mod_self_0(len as int);
        }
    }
}

/// On the stations tab, Down then Up (or `j` then `k`) leaves the dashboard
/// as it was, when the selection lies within the list on screen.
pub proof fn lemma_down_then_up_restores(d: DashView)
    requires
        !d.show_help_modal,
        !d.search_input_active,
        d.active_tab == ActiveTab::Stations,
        d.station_list_index < filtered_view(d.stations, d.filter_query).len(),
        d.stations.len() <= usize::MAX,
    ensures
        key_step(key_step(d, Key::Down).0, Key::Up).0 == d,
        key_step(key_step(d, Key::Char('j')).0, Key::Char('k')).0 == d,
        key_step(d, Key::Down).0.station_list_index < filtered_view(d.stations, d.filter_query).len(),
{
    let len = filtered_view(d.stations, d.filter_query).len();
    reveal_with_fuel(Seq::filter, 1);
    d.stations.lemma_filter_len(station_matches(lowercase(trim(d.filter_query))));
    lemma_nav_down_up(d.station_list_index, len);
}

/// The selection of the search results stays within them, and Down then Up
/// restores it.
pub proof fn lemma_search_selection_round_trip(d: DashView)
    requires
        !d.show_help_modal,
        !d.search_input_active,
        d.active_tab == ActiveTab::Search,
        d.search_results_index < d.search_results.len(),
        d.search_results.len() <= usize::MAX,
    ensures
        key_step(key_step(d, Key::Down).0, Key::Up).0 == d,
        key_step(d, Key::Down).0.search_results_index < d.search_results.len(),
        key_step(d, Key::Up).0.search_results_index < d.search_results.len(),
{
    lemma_nav_down_up(d.search_results_index, d.search_results.len());
}

/// Typing a character in the search box and erasing it restores the box.
pub proof fn lemma_type_then_erase(d: DashView, c: char)
    requires
        !d.show_help_modal,
        d.search_input_active,
    ensures
        key_step(key_step(d, Key::Char(c)).0, Key::Backspace).0 == d,
        key_step(d, Key::Char(c)).1 is None,
{
    assert(d.search_query.push(c).drop_last() =~= d.search_query);
}

/// While the help modal is open, only Esc, `?` and `q` do anything, and they
/// only close it.
pub proof fn lemma_help_modal_takes_keys(d: DashView, key: Key)
    requires
        d.show_help_modal,
    ensures
        key_step(d, key).1 is None,
        key == Key::Esc || key == Key::Char('?') || key == Key::Char('q') ==> key_step(d, key).0
            == (DashView { show_help_modal: false, ..d }),
        !(key == Key::Esc || key == Key::Char('?') || key == Key::Char('q')) ==> key_step(
            d,
            key,
        ).0 == d,
{
}

/// Enter on the stations tab asks to play exactly the station selected on screen.
pub proof fn lemma_enter_plays_selection(d: DashView)
    requires
        !d.show_help_modal,
        !d.search_input_active,
        d.active_tab == ActiveTab::Stations,
        d.station_list_index < filtered_view(d.stations, d.filter_query).len(),
    ensures
        key_step(d, Key::Enter) == (d, Some(
            EffectView::Dispatch(
                ActionView::Play(filtered_view(d.stations, d.filter_query)[d.station_list_index as int]),
            ),
        )),
{
}

/// A jump keeps a selection that lies within a non-empty list within it;
/// a page down that does not reach the bottom is undone by a page up.
pub proof fn lemma_jumps_stay_in_list(i: usize, len: nat, j: Jump)
    requires
        i < len <= usize::MAX,
    ensures
        nav_jump(i, len, j) < len,
        i + PAGE_ITEMS < len - 1 ==> nav_jump(nav_jump(i, len, Jump::PageDown), len, Jump::PageUp)
            == i,
{
    if i + PAGE_ITEMS < len - 1 {
        assert(nav_jump(i, len, Jump::PageDown) == i + PAGE_ITEMS);
    }
}

/// On the stations tab, `g` and Home select the first station on screen, and
/// `G` and End the last one, and nothing else changes.
pub proof fn lemma_top_and_bottom_keys(d: DashView)
    requires
        !d.show_help_modal,
        !d.search_input_active,
        d.active_tab == ActiveTab::Stations,
        filtered_view(d.stations, d.filter_query).len() > 0,
    ensures
        key_step(d, Key::Char('g')) == (DashView { station_list_index: 0, ..d }, None::<EffectView>),
        key_step(d, Key::Home) == key_step(d, Key::Char('g')),
        key_step(d, Key::Char('G')) == (
            DashView {
                station_list_index: (filtered_view(d.stations, d.filter_query).len() - 1) as usize,
                ..d
            },
            None::<EffectView>,
        ),
        key_step(d, Key::End) == key_step(d, Key::Char('G')),
{
}

/// From the first station of a catalog of `len` stations (where the
/// dashboard starts), `k` moves to the next station select station
/// `k % len`, and `k` moves to the previous one select `(len - k % len) % len`
/// (the first move back wraps to the last station).
pub proof fn lemma_cycle_steps_from_start(len: nat, k: nat)
    requires
        0 < len <= usize::MAX,
    ensures
        cycle_steps(0, len, true, k) == (k as int) % (len as int),
        cycle_steps(0, len, false, k) == (len - (k as int) % (len as int)) % (len as int),
    decreases k,
{
    let m = len as int;
    let ki = k as int;
    vstd::arithmetic::div_mod::lemma_mod_self_0(m);
    if k == 0 {
        vstd::arithmetic::div_mod::lemma_small_mod(0, len);
    } else {
        lemma_cycle_steps_from_start(len, (k - 1) as nat);
        let r = (ki - 1) % m;
        vstd::arithmetic::div_mod::lemma_mod_pos_bound(ki - 1, m);
        vstd::arithmetic::div_mod::lemma_mod_pos_bound(ki, m);
        let fwd = cycle_steps(0, len, true, (k - 1) as nat);
        let back = cycle_steps(0, len, false, (k - 1) as nat);
        assert(fwd == r);
        if len == 1 {
            assert(back == 0);
        } else {
            vstd::arithmetic::div_mod::lemma_add_mod_noop(ki - 1, 1, m);
            vstd::arithmetic::div_mod::lemma_small_mod(1, len);
            assert((r + 1) % m == ki % m);
            if r + 1 < m {
                vstd::arithmetic::div_mod::lemma_small_mod((r + 1) as nat, len);
                assert(ki % m == r + 1);
                vstd::arithmetic::div_mod::lemma_small_mod((m - r - 1) as nat, len);
            } else {
                assert(ki % m == 0);
            }
            if r == 0 {
                assert(back == 0);
            } else {
                vstd::arithmetic::div_mod::lemma_small_mod((m - r) as nat, len);
                assert(back == m - r);
            }
        }
    }
}

/// From a dashboard on the first station of a non-empty catalog (as it
/// starts), the `k`-th move to the next station makes station `k % len`
/// current, and the `k`-th move to the previous one makes station
/// `(len - k % len) % len` current (the first move back wraps to the last).
pub proof fn lemma_cycled_from_start(d: DashView, k: nat)
    requires
        d.station_list_index == 0,
        0 < d.stations.len() <= usize::MAX,
        k > 0,
    ensures
        ({
            let len = d.stations.len() as int;
            &&& cycled_view(d, true, k).current_station == Some(d.stations[(k as int) % len])
            &&& cycled_view(d, false, k).current_station == Some(
                d.stations[(len - (k as int) % len) % len],
            )
        }),
{
    lemma_cycled_steps(d, true, k);
    lemma_cycled_steps(d, false, k);
    lemma_cycle_steps_from_start(d.stations.len(), k);
}

/// `k` moves leave the catalog as it is and select the position `cycle_steps` gives.
proof fn lemma_cycled_steps(d: DashView, forward: bool, k: nat)
    requires
        d.station_list_index == 0,
        d.stations.len() > 0,
    ensures
        cycled_view(d, forward, k).stations == d.stations,
        cycled_view(d, forward, k).station_list_index == cycle_steps(0, d.stations.len(), forward, k),
        k > 0 ==> cycled_view(d, forward, k).current_station == Some(
            d.stations[cycle_steps(0, d.stations.len(), forward, k) as int],
        ),
    decreases k,
{
    if k > 0 {
        lemma_cycled_steps(d, forward, (k - 1) as nat);
    }
}

/// Next station then previous station returns to the same catalog position.
pub proof fn lemma_cycle_next_prev(i: usize, len: nat)
    requires
        i < len,
        len <= usize::MAX,
    ensures
        cycle_index(cycle_index(i, len, true), len, false) == i,
        cycle_index(cycle_index(i, len, false), len, true) == i,
{
    lemma_nav_down_up(i, len);
}

/// A tick that is not a whole second changes nothing but the tick counter and asks for nothing.
pub proof fn lemma_tick_between_seconds(d: DashView)
    requires
        (if d.tick_count == u64::MAX {
            0
        } else {
            d.tick_count + 1
        }) % 20 != 0,
    ensures
        tick_step(d).0 == (DashView { tick_count: tick_step(d).0.tick_count, ..d }),
        !tick_step(d).1,
        !tick_step(d).2,
        tick_step(d).3 is None,
{
}

} // verus!
