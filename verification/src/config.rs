//! Configuration values and the station catalog: the built-in lossless
//! stations, lookup by id or name, favorites, and adding stations.
//!
//! Reading and writing `config.toml`, `stations.toml` and `liked_tracks.md`
//! is done around this module; here the catalog is changed in memory and the
//! text of a bookmark line is built.

use vstd::prelude::*;
use crate::seq_search::{first_where, lemma_first_where, lemma_first_where_at, lemma_first_where_none};
use crate::text::{
    contains_seq, lowercase, push_str, str_contains, str_eq, str_to_lowercase, string_from_vec,
    to_string,
};
use crate::events::{copy_opt_string, opt_view};
use crate::util::{format_sample_rate, sample_rate_text};

verus! {

/// UI display preferences.
#[derive(Debug, Clone)]
pub struct UiConfig {
    /// Whether to show the real-time spectrum visualizer bar.
    pub show_visualizer: bool,
    /// Album cover rendering mode: "auto", "kitty", "sixel", "halfblocks", "off".
    pub cover_mode: String,
    /// TUI color theme ("audiophile_dark", "cyberpunk", "monochrome").
    pub theme: String,
}

/// The default of `show_visualizer`: on.
pub fn default_true() -> (r: bool)
    ensures
        r,
{
    true
}

/// The default cover mode: `auto`.
pub fn default_cover_mode() -> (r: String)
    ensures
        r@ == "auto"@,
{
    to_string("auto")
}

/// The default theme: `audiophile_dark`.
pub fn default_theme() -> (r: String)
    ensures
        r@ == "audiophile_dark"@,
{
    to_string("audiophile_dark")
}

impl Default for UiConfig {
    fn default() -> (r: UiConfig)
        ensures
            r.show_visualizer,
            r.cover_mode@ == "auto"@,
            r.theme@ == "audiophile_dark"@,
    {
        UiConfig {
            show_visualizer: default_true(),
            cover_mode: default_cover_mode(),
            theme: default_theme(),
        }
    }
}

/// Last.fm credentials and preferences.
#[derive(Debug, Clone)]
pub struct LastFmConfig {
    pub enabled: bool,
    pub api_key: Option<String>,
    pub api_secret: Option<String>,
    pub session_key: Option<String>,
    pub username: Option<String>,
}

impl Default for LastFmConfig {
    fn default() -> (r: LastFmConfig)
        ensures
            !r.enabled,
            r.api_key is None,
            r.api_secret is None,
            r.session_key is None,
            r.username is None,
    {
        LastFmConfig {
            enabled: false,
            api_key: None,
            api_secret: None,
            session_key: None,
            username: None,
        }
    }
}

/// ListenBrainz credentials and preferences.
#[derive(Debug, Clone)]
pub struct ListenBrainzConfig {
    pub enabled: bool,
    pub user_token: Option<String>,
}

impl Default for ListenBrainzConfig {
    fn default() -> (r: ListenBrainzConfig)
        ensures
            !r.enabled,
            r.user_token is None,
    {
        ListenBrainzConfig { enabled: false, user_token: None }
    }
}

/// Application settings loaded from `config.toml`.
#[derive(Debug, Clone)]
pub struct AppConfig {
    /// MPV Unix domain socket path.
    pub socket_path: String,
    /// Directory where lossless stream recordings are stored.
    pub record_dir: String,
    /// UI preferences.
    pub ui: UiConfig,
    /// Last.fm scrobbling configuration.
    pub lastfm: LastFmConfig,
    /// ListenBrainz scrobbling configuration.
    pub listenbrainz: ListenBrainzConfig,
    /// Default station ID to play on launch if none specified.
    pub default_station_id: Option<String>,
}

impl AppConfig {
    /// The default settings, with the given socket path and recording directory.
    pub fn with_paths(socket_path: String, record_dir: String) -> (r: AppConfig)
        ensures
            r.socket_path == socket_path,
            r.record_dir == record_dir,
            r.ui.show_visualizer,
            r.ui.cover_mode@ == "auto"@,
            r.ui.theme@ == "audiophile_dark"@,
            !r.lastfm.enabled,
            r.lastfm.api_key is None && r.lastfm.api_secret is None,
            r.lastfm.session_key is None && r.lastfm.username is None,
            !r.listenbrainz.enabled && r.listenbrainz.user_token is None,
            r.default_station_id matches Some(id) && id@ == "rp-main"@,
    {
        AppConfig {
            socket_path,
            record_dir,
            ui: UiConfig::default(),
            lastfm: LastFmConfig::default(),
            listenbrainz: ListenBrainzConfig::default(),
            default_station_id: Some(to_string("rp-main")),
        }
    }
}

/// A radio station representation in `stations.toml`.
#[derive(Debug, Clone, PartialEq)]
pub struct Station {
    /// Unique slug or identifier (e.g., `rp-main`, `czech-d-dur`).
    pub id: String,
    /// Human-readable name.
    pub name: String,
    /// Audio stream URL.
    pub url: String,
    /// Audio codec (e.g., `FLAC`, `AAC`, `MP3`).
    pub codec: String,
    /// Nominal sample rate in Hz (e.g., 44100, 48000, 96000).
    pub sample_rate: u32,
    /// Nominal bit depth (e.g., 16, 24).
    pub bit_depth: u8,
    /// Optional homepage URL.
    pub homepage: Option<String>,
    /// Station tags or genre categories.
    pub tags: Vec<String>,
    /// Marked as favorite.
    pub favorite: bool,
    /// Radio Paradise channel ID (0: Main, 1: Mellow, 2: Rock, 3: World/Eclectic).
    pub rp_channel: Option<u32>,
}

/// The abstract value of a `Station`: its texts as character sequences.
pub struct StationView {
    pub id: Seq<char>,
    pub name: Seq<char>,
    pub url: Seq<char>,
    pub codec: Seq<char>,
    pub sample_rate: u32,
    pub bit_depth: u8,
    pub homepage: Option<Seq<char>>,
    pub tags: Seq<Seq<char>>,
    pub favorite: bool,
    pub rp_channel: Option<u32>,
}

/// The views of a list of texts.
pub open spec fn strings_view(v: Seq<String>) -> Seq<Seq<char>> {
    v.map_values(|s: String| s@)
}

impl View for Station {
    type V = StationView;

    open spec fn view(&self) -> StationView {
        StationView {
            id: self.id@,
            name: self.name@,
            url: self.url@,
            codec: self.codec@,
            sample_rate: self.sample_rate,
            bit_depth: self.bit_depth,
            homepage: opt_view(self.homepage),
            tags: strings_view(self.tags@),
            favorite: self.favorite,
            rp_channel: self.rp_channel,
        }
    }
}

/// The views of a list of stations.
pub open spec fn stations_view(v: Seq<Station>) -> Seq<StationView> {
    v.map_values(|s: Station| s@)
}

/// A list of texts made from the literals `v`.
pub fn strings_from(v: &[&str]) -> (r: Vec<String>)
    ensures
        strings_view(r@) == v@.map_values(|s: &str| s@),
{
    let mut out: Vec<String> = Vec::new();
    let mut i: usize = 0;
    while i < v.len()
        invariant
            i <= v@.len(),
            out@.len() == i,
            forall|j: int| 0 <= j < i ==> (#[trigger] out@[j])@ == v@[j]@,
        decreases v@.len() - i,
    {
        out.push(to_string(v[i]));
        i = i + 1;
    }
    assert(strings_view(out@) =~= v@.map_values(|s: &str| s@));
    out
}

/// A copy of a list of texts.
pub fn copy_strings(v: &Vec<String>) -> (r: Vec<String>)
    ensures
        r@ == v@,
{
    let mut out: Vec<String> = Vec::new();
    let mut i: usize = 0;
    while i < v.len()
        invariant
            i <= v@.len(),
            out@ == v@.subrange(0, i as int),
        decreases v@.len() - i,
    {
        out.push(v[i].clone());
        i = i + 1;
        assert(out@ =~= v@.subrange(0, i as int));
    }
    assert(v@.subrange(0, i as int) =~= v@);
    out
}

impl Station {
    /// A copy of this station.
    pub fn copy(&self) -> (r: Station)
        ensures
            r@ == self@,
    {
        Station {
            id: self.id.clone(),
            name: self.name.clone(),
            url: self.url.clone(),
            codec: self.codec.clone(),
            sample_rate: self.sample_rate,
            bit_depth: self.bit_depth,
            homepage: copy_opt_string(&self.homepage),
            tags: copy_strings(&self.tags),
            favorite: self.favorite,
            rp_channel: self.rp_channel,
        }
    }
}

/// A station of the built-in catalog, by its literal texts.
fn lossless_station(
    id: &str,
    name: &str,
    url: &str,
    codec: &str,
    sample_rate: u32,
    bit_depth: u8,
    homepage: &str,
    tags: &[&str],
    favorite: bool,
    rp_channel: Option<u32>,
) -> (r: Station)
    ensures
        r@ == (StationView {
            id: id@,
            name: name@,
            url: url@,
            codec: codec@,
            sample_rate,
            bit_depth,
            homepage: Some(homepage@),
            tags: tags@.map_values(|s: &str| s@),
            favorite,
            rp_channel,
        }),
{
    Station {
        id: to_string(id),
        name: to_string(name),
        url: to_string(url),
        codec: to_string(codec),
        sample_rate,
        bit_depth,
        homepage: Some(to_string(homepage)),
        tags: strings_from(tags),
        favorite,
        rp_channel,
    }
}

/// The view of a built-in station.
pub open spec fn lossless_view(
    id: &str,
    name: &str,
    url: &str,
    sample_rate: u32,
    bit_depth: u8,
    homepage: &str,
    tags: Seq<&str>,
    favorite: bool,
    rp_channel: Option<u32>,
) -> StationView {
    StationView {
        id: id@,
        name: name@,
        url: url@,
        codec: "FLAC"@,
        sample_rate,
        bit_depth,
        homepage: Some(homepage@),
        tags: tags.map_values(|s: &str| s@),
        favorite,
        rp_channel,
    }
}

/// The built-in catalog of lossless and hi-res stations.
pub open spec fn default_stations_view() -> Seq<StationView> {
    seq![
        lossless_view("rp-main", "Radio Paradise (Main Mix)", "http://stream.radioparadise.com/flac", 44100, 16, "https://radioparadise.com", seq!["eclectic", "lossless", "audiophile"], true, Some(0u32)),
        lossless_view("rp-mellow", "Radio Paradise (Mellow Mix)", "http://stream.radioparadise.com/mellow-flac", 44100, 16, "https://radioparadise.com", seq!["mellow", "acoustic", "lossless"], false, Some(1u32)),
        lossless_view("rp-rock", "Radio Paradise (Rock Mix)", "http://stream.radioparadise.com/rock-flac", 44100, 16, "https://radioparadise.com", seq!["rock", "lossless"], false, Some(2u32)),
        lossless_view("rp-world", "Radio Paradise (World / Eclectic Mix)", "http://stream.radioparadise.com/world-flac", 44100, 16, "https://radioparadise.com", seq!["world", "eclectic", "lossless"], false, Some(3u32)),
        lossless_view("czech-d-dur", "Czech Radio D-Dur (Hi-Res Classical)", "http://radio.d-dur.cz/d-dur.flac", 48000, 24, "https://d-dur.rozhlas.cz", seq!["classical", "hi-res", "24bit"], true, None),
        lossless_view("jb-radio2", "JB Radio-2 (Hi-Res FLAC 96kHz/24b)", "http://199.189.87.9:10999/flac", 96000, 24, "https://jbradio2.ca", seq!["audiophile", "hi-res", "96khz", "rock"], true, None),
        lossless_view("mother-earth", "Mother Earth Radio (Hi-Res 96kHz)", "https://motherearth.streamserver24.com/listen/motherearth/motherearth.flac", 96000, 24, "https://motherearthradio.de", seq!["audiophile", "hi-res", "vinyl"], false, None),
        lossless_view("sector-space", "Sector Radio (Space FLAC)", "http://sectorradio.ru:8000/space-flac", 44100, 16, "https://sectorradio.ru", seq!["ambient", "space", "lossless"], false, None),
        StationView {
            id: "fip-paris"@,
            name: "FIP Radio Paris"@,
            url: "https://icecast.radiofrance.fr/fip-midfi.mp3"@,
            codec: "MP3"@,
            sample_rate: 44100,
            bit_depth: 16,
            homepage: Some("https://www.radiofrance.fr/fip"@),
            tags: seq!["jazz", "eclectic", "france"].map_values(|s: &str| s@),
            favorite: false,
            rp_channel: None,
        },
    ]
}

/// Stations catalog wrapper.
#[derive(Debug, Clone)]
pub struct StationsCatalog {
    pub stations: Vec<Station>,
}

impl StationsCatalog {
    /// Returns default audiophile lossless stations.
    pub fn default_lossless_stations() -> (r: StationsCatalog)
        ensures
            stations_view(r.stations@) == default_stations_view(),
    {
        let mut v: Vec<Station> = Vec::new();
        v.push(lossless_station("rp-main", "Radio Paradise (Main Mix)", "http://stream.radioparadise.com/flac", "FLAC", 44100, 16, "https://radioparadise.com", &["eclectic", "lossless", "audiophile"], true, Some(0)));
        v.push(lossless_station("rp-mellow", "Radio Paradise (Mellow Mix)", "http://stream.radioparadise.com/mellow-flac", "FLAC", 44100, 16, "https://radioparadise.com", &["mellow", "acoustic", "lossless"], false, Some(1)));
        v.push(lossless_station("rp-rock", "Radio Paradise (Rock Mix)", "http://stream.radioparadise.com/rock-flac", "FLAC", 44100, 16, "https://radioparadise.com", &["rock", "lossless"], false, Some(2)));
        v.push(lossless_station("rp-world", "Radio Paradise (World / Eclectic Mix)", "http://stream.radioparadise.com/world-flac", "FLAC", 44100, 16, "https://radioparadise.com", &["world", "eclectic", "lossless"], false, Some(3)));
        v.push(lossless_station("czech-d-dur", "Czech Radio D-Dur (Hi-Res Classical)", "http://radio.d-dur.cz/d-dur.flac", "FLAC", 48000, 24, "https://d-dur.rozhlas.cz", &["classical", "hi-res", "24bit"], true, None));
        v.push(lossless_station("jb-radio2", "JB Radio-2 (Hi-Res FLAC 96kHz/24b)", "http://199.189.87.9:10999/flac", "FLAC", 96000, 24, "https://jbradio2.ca", &["audiophile", "hi-res", "96khz", "rock"], true, None));
        v.push(lossless_station("mother-earth", "Mother Earth Radio (Hi-Res 96kHz)", "https://motherearth.streamserver24.com/listen/motherearth/motherearth.flac", "FLAC", 96000, 24, "https://motherearthradio.de", &["audiophile", "hi-res", "vinyl"], false, None));
        v.push(lossless_station("sector-space", "Sector Radio (Space FLAC)", "http://sectorradio.ru:8000/space-flac", "FLAC", 44100, 16, "https://sectorradio.ru", &["ambient", "space", "lossless"], false, None));
        v.push(lossless_station("fip-paris", "FIP Radio Paris", "https://icecast.radiofrance.fr/fip-midfi.mp3", "MP3", 44100, 16, "https://www.radiofrance.fr/fip", &["jazz", "eclectic", "france"], false, None));
        assert(stations_view(v@) =~= default_stations_view());
        StationsCatalog { stations: v }
    }
}

// ---------------------------------------------------------------------------
// Catalog operations, as functions on sequences of stations
// ---------------------------------------------------------------------------

/// The station has exactly the id `q`.
pub open spec fn id_is(q: Seq<char>) -> spec_fn(Station) -> bool {
    |s: Station| s.id@ == q
}

/// The station's id equals `q` ignoring case.
pub open spec fn id_is_ignoring_case(q: Seq<char>) -> spec_fn(Station) -> bool {
    |s: Station| lowercase(s.id@) == lowercase(q)
}

/// The station's name contains `q` ignoring case.
pub open spec fn name_contains_ignoring_case(q: Seq<char>) -> spec_fn(Station) -> bool {
    |s: Station| contains_seq(lowercase(s.name@), lowercase(q))
}

/// The station `find_station` picks for `q`: the first with id `q`, else the
/// first whose id matches ignoring case, else the first whose name contains
/// `q` ignoring case.
pub open spec fn find_station_index(stations: Seq<Station>, q: Seq<char>) -> Option<int> {
    match first_where(stations, id_is(q), 0) {
        Some(i) => Some(i),
        None => match first_where(stations, id_is_ignoring_case(q), 0) {
            Some(i) => Some(i),
            None => first_where(stations, name_contains_ignoring_case(q), 0),
        },
    }
}

/// `s` with its favorite mark set to `f`.
pub open spec fn with_favorite(s: Station, f: bool) -> Station {
    Station { favorite: f, ..s }
}

/// The stations after toggling the favorite mark of the first station with id `id`.
pub open spec fn toggled(stations: Seq<Station>, id: Seq<char>) -> Seq<Station> {
    match first_where(stations, id_is(id), 0) {
        Some(i) => stations.update(i, with_favorite(stations[i], !stations[i].favorite)),
        None => stations,
    }
}

/// What `toggle_favorite` returns: the new mark, or `false` when no station has the id.
pub open spec fn toggle_result(stations: Seq<Station>, id: Seq<char>) -> bool {
    match first_where(stations, id_is(id), 0) {
        Some(i) => !stations[i].favorite,
        None => false,
    }
}

/// The stations after adding `st`: it replaces the first station with its id, or is appended.
pub open spec fn added(stations: Seq<Station>, st: Station) -> Seq<Station> {
    match first_where(stations, id_is(st.id@), 0) {
        Some(i) => stations.update(i, st),
        None => stations.push(st),
    }
}

/// Replacing an element by one that `p` judges alike leaves the first match where it was.
pub proof fn lemma_first_where_update(s: Seq<Station>, p: spec_fn(Station) -> bool, i: int, x: Station)
    requires
        0 <= i < s.len(),
        p(x) == p(s[i]),
    ensures
        first_where(s.update(i, x), p, 0) == first_where(s, p, 0),
{
    let u = s.update(i, x);
    assert forall|j: int| 0 <= j < s.len() implies p(#[trigger] u[j]) == p(s[j]) by {
        if j == i {
        }
    }
    lemma_first_where(s, p, 0);
    match first_where(s, p, 0) {
        Some(k) => {
            assert(p(u[k]));
            assert forall|j: int| 0 <= j < k implies !p(#[trigger] u[j]) by {
                assert(!p(s[j]));
            }
            lemma_first_where_at(u, p, k);
        },
        None => {
            assert forall|j: int| 0 <= j < u.len() implies !p(#[trigger] u[j]) by {
                assert(!p(s[j]));
            }
            lemma_first_where_none(u, p);
        },
    }
}

/// Toggling the favorite mark of a station twice restores the catalog.
pub proof fn lemma_toggle_favorite_twice(stations: Seq<Station>, id: Seq<char>)
    ensures
        toggled(toggled(stations, id), id) == stations,
        toggle_result(toggled(stations, id), id) == !toggle_result(stations, id) || first_where(
            stations,
            id_is(id),
            0,
        ) is None,
{
    lemma_first_where(stations, id_is(id), 0);
    match first_where(stations, id_is(id), 0) {
        Some(i) => {
            let x = with_favorite(stations[i], !stations[i].favorite);
            lemma_first_where_update(stations, id_is(id), i, x);
            let t = stations.update(i, x);
            assert(t[i] == x);
            assert(with_favorite(x, !x.favorite) == stations[i]);
            assert(t.update(i, with_favorite(t[i], !t[i].favorite)) =~= stations);
        },
        None => {},
    }
}

/// After a station is added, looking it up by its id finds exactly that station.
pub proof fn lemma_add_station_then_find(stations: Seq<Station>, st: Station)
    ensures
        find_station_index(added(stations, st), st.id@) matches Some(i) && 0 <= i < added(
            stations,
            st,
        ).len() && added(stations, st)[i] == st,
{
    let p = id_is(st.id@);
    lemma_first_where(stations, p, 0);
    match first_where(stations, p, 0) {
        Some(i) => {
            lemma_first_where_update(stations, p, i, st);
            lemma_first_where(stations.update(i, st), p, 0);
        },
        None => {
            let u = stations.push(st);
            assert forall|j: int| 0 <= j < stations.len() implies !p(#[trigger] u[j]) by {
                assert(u[j] == stations[j]);
            }
            assert(p(u[stations.len() as int]));
            lemma_first_where_at(u, p, stations.len() as int);
        },
    }
}

/// Adding the same station twice changes the catalog no more than adding it once.
pub proof fn lemma_add_station_idempotent(stations: Seq<Station>, st: Station)
    ensures
        added(added(stations, st), st) == added(stations, st),
{
    let p = id_is(st.id@);
    lemma_first_where(stations, p, 0);
    let a = added(stations, st);
    match first_where(stations, p, 0) {
        Some(i) => {
            lemma_first_where_update(stations, p, i, st);
            assert(a.update(i, st) =~= a);
        },
        None => {
            let u = stations.push(st);
            assert forall|j: int| 0 <= j < stations.len() implies !p(#[trigger] u[j]) by {
                assert(u[j] == stations[j]);
            }
            lemma_first_where_at(u, p, stations.len() as int);
            assert(u.update(stations.len() as int, st) =~= u);
        },
    }
}

// ---------------------------------------------------------------------------
// The same operations on the views of the stations
// ---------------------------------------------------------------------------

/// The viewed station has exactly the id `q`.
pub open spec fn view_id_is(q: Seq<char>) -> spec_fn(StationView) -> bool {
    |s: StationView| s.id == q
}

/// `toggled` on the views of the stations.
pub open spec fn toggled_view(stations: Seq<StationView>, id: Seq<char>) -> Seq<StationView> {
    match first_where(stations, view_id_is(id), 0) {
        Some(i) => stations.update(i, StationView { favorite: !stations[i].favorite, ..stations[i] }),
        None => stations,
    }
}

/// `added` on the views of the stations.
pub open spec fn added_view(stations: Seq<StationView>, st: StationView) -> Seq<StationView> {
    match first_where(stations, view_id_is(st.id), 0) {
        Some(i) => stations.update(i, st),
        None => stations.push(st),
    }
}

/// Searching the stations by id and searching their views by id find the same position.
pub proof fn lemma_first_id_views(s: Seq<Station>, id: Seq<char>, k: nat)
    ensures
        first_where(s, id_is(id), k) == first_where(stations_view(s), view_id_is(id), k),
    decreases s.len() - k,
{
    if k < s.len() {
        assert(stations_view(s)[k as int] == s[k as int]@);
        lemma_first_id_views(s, id, k + 1);
    }
}

/// Toggling a favorite commutes with taking the views of the stations.
pub proof fn lemma_toggled_view(s: Seq<Station>, id: Seq<char>)
    ensures
        stations_view(toggled(s, id)) == toggled_view(stations_view(s), id),
{
    lemma_first_id_views(s, id, 0);
    lemma_first_where(s, id_is(id), 0);
    match first_where(s, id_is(id), 0) {
        Some(i) => {
            assert(stations_view(toggled(s, id)) =~= toggled_view(stations_view(s), id));
        },
        None => {},
    }
}

/// Adding a station commutes with taking the views of the stations.
pub proof fn lemma_added_view(s: Seq<Station>, st: Station)
    ensures
        stations_view(added(s, st)) == added_view(stations_view(s), st@),
{
    lemma_first_id_views(s, st.id@, 0);
    lemma_first_where(s, id_is(st.id@), 0);
    assert(stations_view(added(s, st)) =~= added_view(stations_view(s), st@));
}

/// Central configuration manager for settings and the station catalog.
#[derive(Debug, Clone)]
pub struct ConfigManager {
    /// The configuration directory (`~/.config/reso`).
    pub config_dir: String,
    pub config: AppConfig,
    pub catalog: StationsCatalog,
}

impl ConfigManager {
    /// A manager for the configuration directory `config_dir`.
    pub fn new(config_dir: String, config: AppConfig, catalog: StationsCatalog) -> (r: ConfigManager)
        ensures
            r.config_dir == config_dir,
            r.config == config,
            r.catalog == catalog,
    {
        ConfigManager { config_dir, config, catalog }
    }

    /// Finds a station by ID or by case-insensitive name match.
    pub fn find_station(&self, query: &str) -> (r: Option<&Station>)
        ensures
            match find_station_index(self.catalog.stations@, query@) {
                Some(i) => r == Some(&self.catalog.stations@[i]),
                None => r is None,
            },
    {
        let stations = &self.catalog.stations;
        let ghost s = stations@;
        // Exact ID match first
        let mut i: usize = 0;
        while i < stations.len()
            invariant
                s == stations@,
                s == self.catalog.stations@,
                i <= s.len(),
                forall|j: int| 0 <= j < i ==> !id_is(query@)(#[trigger] s[j]),
            decreases s.len() - i,
        {
            if str_eq(stations[i].id.as_str(), query) {
                proof {
                    lemma_first_where_at(s, id_is(query@), i as int);
                }
                return Some(&stations[i]);
            }
            i = i + 1;
        }
        proof {
            lemma_first_where_none(s, id_is(query@));
        }
        let q_lower = str_to_lowercase(query);
        // Case-insensitive ID match
        let mut i: usize = 0;
        while i < stations.len()
            invariant
                s == stations@,
                s == self.catalog.stations@,
                i <= s.len(),
                q_lower@ == lowercase(query@),
                first_where(s, id_is(query@), 0) is None,
                forall|j: int| 0 <= j < i ==> !id_is_ignoring_case(query@)(#[trigger] s[j]),
            decreases s.len() - i,
        {
            let id_lower = str_to_lowercase(stations[i].id.as_str());
            if str_eq(id_lower.as_str(), q_lower.as_str()) {
                proof {
                    lemma_first_where_at(s, id_is_ignoring_case(query@), i as int);
                }
                return Some(&stations[i]);
            }
            i = i + 1;
        }
        proof {
            lemma_first_where_none(s, id_is_ignoring_case(query@));
        }
        // Substring / Name match
        let mut i: usize = 0;
        while i < stations.len()
            invariant
                s == stations@,
                s == self.catalog.stations@,
                i <= s.len(),
                q_lower@ == lowercase(query@),
                first_where(s, id_is(query@), 0) is None,
                first_where(s, id_is_ignoring_case(query@), 0) is None,
                forall|j: int| 0 <= j < i ==> !name_contains_ignoring_case(query@)(#[trigger] s[j]),
            decreases s.len() - i,
        {
            let name_lower = str_to_lowercase(stations[i].name.as_str());
            if str_contains(name_lower.as_str(), q_lower.as_str()) {
                proof {
                    lemma_first_where_at(s, name_contains_ignoring_case(query@), i as int);
                }
                return Some(&stations[i]);
            }
            i = i + 1;
        }
        proof {
            lemma_first_where_none(s, name_contains_ignoring_case(query@));
        }
        None
    }

    /// The index of the first station with id `id`.
    fn position_of_id(stations: &Vec<Station>, id: &str) -> (r: Option<usize>)
        ensures
            match first_where(stations@, id_is(id@), 0) {
                Some(i) => r == Some(i as usize),
                None => r is None,
            },
    {
        let mut i: usize = 0;
        while i < stations.len()
            invariant
                i <= stations@.len(),
                forall|j: int| 0 <= j < i ==> !id_is(id@)(#[trigger] stations@[j]),
            decreases stations@.len() - i,
        {
            if str_eq(stations[i].id.as_str(), id) {
                proof {
                    lemma_first_where_at(stations@, id_is(id@), i as int);
                }
                return Some(i);
            }
            i = i + 1;
        }
        proof {
            lemma_first_where_none(stations@, id_is(id@));
        }
        None
    }

    /// Toggles the favorite status of a station; returns the new status, or
    /// `false` when no station has the id. Persisting the catalog is the
    /// caller's part.
    pub fn toggle_favorite(&mut self, station_id: &str) -> (r: bool)
        ensures
            final(self).catalog.stations@ == toggled(old(self).catalog.stations@, station_id@),
            r == toggle_result(old(self).catalog.stations@, station_id@),
            final(self).config == old(self).config,
            final(self).config_dir == old(self).config_dir,
    {
        proof {
            lemma_first_where(self.catalog.stations@, id_is(station_id@), 0);
        }
        match Self::position_of_id(&self.catalog.stations, station_id) {
            Some(i) => {
                let mut st = self.catalog.stations.remove(i);
                st.favorite = !st.favorite;
                let fav = st.favorite;
                self.catalog.stations.insert(i, st);
                proof {
                    let o = old(self).catalog.stations@;
                    assert(self.catalog.stations@ =~= o.update(
                        i as int,
                        with_favorite(o[i as int], !o[i as int].favorite),
                    ));
                }
                fav
            },
            None => false,
        }
    }

    /// Adds a new station to the catalog, replacing the station with the same
    /// id if there is one. Persisting the catalog is the caller's part.
    pub fn add_station(&mut self, station: Station)
        ensures
            final(self).catalog.stations@ == added(old(self).catalog.stations@, station),
            final(self).config == old(self).config,
            final(self).config_dir == old(self).config_dir,
    {
        proof {
            lemma_first_where(self.catalog.stations@, id_is(station.id@), 0);
        }
        match Self::position_of_id(&self.catalog.stations, station.id.as_str()) {
            Some(i) => {
                self.catalog.stations.set(i, station);
            },
            None => {
                self.catalog.stations.push(station);
            },
        }
    }
}

// ---------------------------------------------------------------------------
// Bookmark lines of `liked_tracks.md`
// ---------------------------------------------------------------------------

/// The line appended to `liked_tracks.md` for a liked track:
/// ``- `[now]` **artist** - *title* [Station: station | Codec: codec (rate) | Album: *album*]``.
pub open spec fn bookmark_line(
    now: Seq<char>,
    station: Seq<char>,
    artist: Seq<char>,
    title: Seq<char>,
    album: Option<Seq<char>>,
    codec: Option<Seq<char>>,
    sample_rate: Option<u32>,
) -> Seq<char> {
    "- `["@ + now + "]` **"@ + artist + "** - *"@ + title + "* [Station: "@ + station
        + " | Codec: "@ + match codec {
        Some(c) => c,
        None => "Lossless"@,
    } + match sample_rate {
        Some(r) => " ("@ + sample_rate_text(r) + ")"@,
        None => Seq::empty(),
    } + match album {
        Some(a) => " | Album: *"@ + a + "*"@,
        None => Seq::empty(),
    } + "]\n"@
}

/// The view of an optional text slice.
pub open spec fn opt_str_view(o: Option<&str>) -> Option<Seq<char>> {
    match o {
        Some(s) => Some(s@),
        None => None,
    }
}

/// Builds the bookmark line for a liked track, stamped with `now`.
pub fn format_bookmark_line(
    now: &str,
    station_name: &str,
    artist: &str,
    title: &str,
    album: Option<&str>,
    codec: Option<&str>,
    sample_rate: Option<u32>,
) -> (r: String)
    ensures
        r@ == bookmark_line(
            now@,
            station_name@,
            artist@,
            title@,
            opt_str_view(album),
            opt_str_view(codec),
            sample_rate,
        ),
{
    let mut out: Vec<char> = Vec::new();
    push_str(&mut out, "- `[");
    push_str(&mut out, now);
    push_str(&mut out, "]` **");
    push_str(&mut out, artist);
    push_str(&mut out, "** - *");
    push_str(&mut out, title);
    push_str(&mut out, "* [Station: ");
    push_str(&mut out, station_name);
    push_str(&mut out, " | Codec: ");
    match codec {
        Some(c) => push_str(&mut out, c),
        None => push_str(&mut out, "Lossless"),
    }
    match sample_rate {
        Some(r) => {
            push_str(&mut out, " (");
            let t = format_sample_rate(r);
            push_str(&mut out, t.as_str());
            push_str(&mut out, ")");
        },
        None => {},
    }
    match album {
        Some(a) => {
            push_str(&mut out, " | Album: *");
            push_str(&mut out, a);
            push_str(&mut out, "*");
        },
        None => {},
    }
    push_str(&mut out, "]\n");
    assert(out@ =~= bookmark_line(
        now@,
        station_name@,
        artist@,
        title@,
        opt_str_view(album),
        opt_str_view(codec),
        sample_rate,
    ));
    string_from_vec(out)
}

} // verus!
