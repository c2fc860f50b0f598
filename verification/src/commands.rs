//! The decisions of the one-shot commands: which station `play` streams,
//! which stations `list` shows, where `next` and `prev` jump, what `volume`
//! and `record` do with their action word, and which lines of the liked
//! tracks history are shown. Talking to the player, the files and `wpctl` is
//! done around this module.

use vstd::prelude::*;
use crate::config::{
    ConfigManager, Station, StationView, find_station_index, stations_view, strings_view,
};
use crate::seq_search::{first_where, lemma_first_where_at, lemma_first_where_none};
use crate::text::{chars_of, lines, line_ranges, starts_with, str_eq, sub_vec, string_from_chars, to_string};

verus! {

// ---------------------------------------------------------------------------
// play
// ---------------------------------------------------------------------------

/// Why `play` found nothing to stream: the query matched no station.
#[derive(Debug)]
pub enum PlayError {
    NotFound(String),
}

/// The query is a stream URL.
pub open spec fn is_stream_url(q: Seq<char>) -> bool {
    starts_with(q, "http://"@) || starts_with(q, "https://"@)
}

/// The station made up for a stream URL given on the command line.
pub open spec fn custom_station(url: Seq<char>) -> StationView {
    StationView {
        id: "custom-stream"@,
        name: "Custom Stream"@,
        url: url,
        codec: "FLAC"@,
        sample_rate: 44100,
        bit_depth: 16,
        homepage: None,
        tags: seq!["custom"@],
        favorite: false,
        rp_channel: None,
    }
}

/// The station `play` streams: a URL as a custom station; else the station
/// the query finds (an error naming the query when none does); without a
/// query, the configured default (`rp-main` when none is set), else the
/// first station of the catalog.
pub open spec fn play_target(
    stations: Seq<Station>,
    default_id: Option<Seq<char>>,
    query: Option<Seq<char>>,
) -> Result<StationView, Seq<char>> {
    match query {
        Some(q) => if is_stream_url(q) {
            Ok(custom_station(q))
        } else {
            match find_station_index(stations, q) {
                Some(i) => Ok(stations[i]@),
                None => Err(q),
            }
        },
        None => {
            let d = match default_id {
                Some(x) => x,
                None => "rp-main"@,
            };
            match find_station_index(stations, d) {
                Some(i) => Ok(stations[i]@),
                None => Ok(stations[0]@),
            }
        },
    }
}

/// The default station id: the configured one, or `rp-main`.
pub open spec fn default_id_of(cm: ConfigManager) -> Seq<char> {
    match cm.config.default_station_id {
        Some(x) => x@,
        None => "rp-main"@,
    }
}

/// The station `reso play` streams for the query given, if any. Without a
/// query, a catalog in which the default station is missing must not be empty.
pub fn resolve_play_station(cm: &ConfigManager, query: Option<&str>) -> (r: Result<Station, PlayError>)
    requires
        query is Some || find_station_index(cm.catalog.stations@, default_id_of(*cm)) is Some
            || cm.catalog.stations@.len() > 0,
    ensures
        match play_target(
            cm.catalog.stations@,
            match cm.config.default_station_id {
                Some(x) => Some(x@),
                None => None,
            },
            match query {
                Some(q) => Some(q@),
                None => None,
            },
        ) {
            Ok(st) => r matches Ok(s) && s@ == st,
            Err(q) => r matches Err(PlayError::NotFound(m)) && m@ == q,
        },
{
    match query {
        Some(q) => {
            let qc = chars_of(q);
            let h1 = chars_of("http://");
            let h2 = chars_of("https://");
            if crate::text::starts_with_exec(qc.as_slice(), h1.as_slice())
                || crate::text::starts_with_exec(qc.as_slice(), h2.as_slice()) {
                let mut tags: Vec<String> = Vec::new();
                tags.push(to_string("custom"));
                let st = Station {
                    id: to_string("custom-stream"),
                    name: to_string("Custom Stream"),
                    url: to_string(q),
                    codec: to_string("FLAC"),
                    sample_rate: 44100,
                    bit_depth: 16,
                    homepage: None,
                    tags,
                    favorite: false,
                    rp_channel: None,
                };
                assert(st@.tags =~= seq!["custom"@]);
                Ok(st)
            } else {
                match cm.find_station(q) {
                    Some(s) => Ok(s.copy()),
                    None => Err(PlayError::NotFound(to_string(q))),
                }
            }
        },
        None => {
            let found = match &cm.config.default_station_id {
                Some(d) => cm.find_station(d.as_str()),
                None => cm.find_station("rp-main"),
            };
            match found {
                Some(s) => Ok(s.copy()),
                None => Ok(cm.catalog.stations[0].copy()),
            }
        },
    }
}

// ---------------------------------------------------------------------------
// list, next, prev
// ---------------------------------------------------------------------------

/// The stations `list` shows: all, or only the favorites.
pub open spec fn listed(stations: Seq<Station>, favorites_only: bool) -> Seq<Station> {
    stations.filter(|s: Station| !favorites_only || s.favorite)
}

/// The stations `reso list` shows, in catalog order.
pub fn list_stations(cm: &ConfigManager, favorites_only: bool) -> (r: Vec<&Station>)
    ensures
        r@.map_values(|s: &Station| *s) == listed(cm.catalog.stations@, favorites_only),
{
    let stations = &cm.catalog.stations;
    let ghost pred = |s: Station| !favorites_only || s.favorite;
    let mut out: Vec<&Station> = Vec::new();
    let mut i: usize = 0;
    while i < stations.len()
        invariant
            i <= stations@.len(),
            stations@ == cm.catalog.stations@,
            pred == (|s: Station| !favorites_only || s.favorite),
            out@.map_values(|s: &Station| *s) == stations@.subrange(0, i as int).filter(pred),
        decreases stations@.len() - i,
    {
        let ghost before = out@;
        if !favorites_only || stations[i].favorite {
            out.push(&stations[i]);
        }
        proof {
            let s1 = stations@.subrange(0, i + 1);
            assert(s1.drop_last() =~= stations@.subrange(0, i as int));
            assert(s1.last() == stations@[i as int]);
            reveal_with_fuel(Seq::filter, 1);
            assert(out@.map_values(|s: &Station| *s) =~= s1.filter(pred));
        }
        i = i + 1;
    }
    assert(stations@.subrange(0, i as int) =~= stations@);
    out
}

/// The station has the stream URL `url`.
pub open spec fn url_is(url: Seq<char>) -> spec_fn(Station) -> bool {
    |s: Station| s.url@ == url
}

/// The catalog position of the first station streamed from `url`, if any:
/// how the station now playing is found from the URL the player reports.
pub fn station_index_by_url(stations: &Vec<Station>, url: &str) -> (r: Option<usize>)
    ensures
        match first_where(stations@, url_is(url@), 0) {
            Some(i) => r == Some(i as usize),
            None => r is None,
        },
{
    let ghost p = url_is(url@);
    let mut i: usize = 0;
    while i < stations.len()
        invariant
            i <= stations@.len(),
            p == url_is(url@),
            forall|j: int| 0 <= j < i ==> !p(#[trigger] stations@[j]),
        decreases stations@.len() - i,
    {
        if str_eq(stations[i].url.as_str(), url) {
            proof {
                lemma_first_where_at(stations@, p, i as int);
            }
            return Some(i);
        }
        i = i + 1;
    }
    proof {
        lemma_first_where_none(stations@, p);
    }
    None
}

/// Where `reso next` and `reso prev` move in a catalog of `len` stations:
/// one station on from the station now playing at `current`, wrapping at
/// either end; with no station of the catalog playing, to the first station
/// (`next`) or the last one (`prev`); nowhere in an empty catalog.
pub open spec fn cycle_target_of(len: nat, current: Option<usize>, forward: bool) -> Option<int> {
    if len == 0 {
        None
    } else {
        match current {
            Some(i) if i < len => Some(
                if forward {
                    (i + 1) % (len as int)
                } else {
                    (i + len - 1) % (len as int)
                },
            ),
            _ => Some(
                if forward {
                    0
                } else {
                    len - 1
                },
            ),
        }
    }
}

/// Where `reso next` and `reso prev` jump from the station at `current`.
pub fn cycle_target(len: usize, current: Option<usize>, forward: bool) -> (r: Option<usize>)
    ensures
        match cycle_target_of(len as nat, current, forward) {
            Some(t) => r == Some(t as usize) && 0 <= t < len,
            None => r is None,
        },
{
    if len == 0 {
        return None;
    }
    match current {
        Some(i) if i < len => {
            proof {
                let m = len as int;
                vstd::arithmetic::div_mod::lemma_mod_self_0(m);
                if i + 1 < m {
                    vstd::arithmetic::div_mod::lemma_small_mod((i + 1) as nat, len as nat);
                }
                if i == 0 {
                    vstd::arithmetic::div_mod::lemma_small_mod((m - 1) as nat, len as nat);
                } else {
                    vstd::arithmetic::div_mod::lemma_mod_add_multiples_vanish(i - 1, m);
                    vstd::arithmetic::div_mod::lemma_small_mod((i - 1) as nat, len as nat);
                }
            }
            if forward {
                Some(if i + 1 == len { 0 } else { i + 1 })
            } else {
                Some(if i == 0 { len - 1 } else { i - 1 })
            }
        },
        _ => {
            if forward {
                Some(0)
            } else {
                Some(len - 1)
            }
        },
    }
}

// ---------------------------------------------------------------------------
// volume and record
// ---------------------------------------------------------------------------

/// What `reso volume` does with its action word.
#[derive(Debug)]
pub enum VolumePlan {
    /// Show the volume.
    Get,
    /// Raise it by 5%.
    Up,
    /// Lower it by 5%.
    Down,
    /// Toggle the mute.
    Mute,
    /// Set it to this `wpctl` value.
    SetTo(String),
}

/// The `wpctl set-volume` value of a volume word: a percentage as it is when
/// it ends in `%`; a fraction as it is when it has a decimal point (`0.5` is
/// half the full volume, as `wpctl` reads it); a whole number as a percentage,
/// with `%` added (`50` is `50%`).
pub open spec fn volume_value(v: Seq<char>) -> Seq<char> {
    if v.len() > 0 && v.last() == '%' {
        v
    } else if v.contains('.') {
        v
    } else {
        v.push('%')
    }
}

pub open spec fn volume_plan_of(a: Seq<char>) -> (u8, Seq<char>) {
    if a == "get"@ {
        (0, Seq::empty())
    } else if a == "up"@ {
        (1, Seq::empty())
    } else if a == "down"@ {
        (2, Seq::empty())
    } else if a == "mute"@ {
        (3, Seq::empty())
    } else {
        (4, volume_value(a))
    }
}

/// The code and value of a plan.
pub open spec fn volume_plan_view(p: VolumePlan) -> (u8, Seq<char>) {
    match p {
        VolumePlan::Get => (0, Seq::empty()),
        VolumePlan::Up => (1, Seq::empty()),
        VolumePlan::Down => (2, Seq::empty()),
        VolumePlan::Mute => (3, Seq::empty()),
        VolumePlan::SetTo(v) => (4, v@),
    }
}

/// What `reso volume` does with its action word: `get`, `up`, `down`,
/// `mute`, or any other word as a value to set.
pub fn volume_plan(action: &str) -> (r: VolumePlan)
    ensures
        volume_plan_view(r) == volume_plan_of(action@),
{
    if str_eq(action, "get") {
        VolumePlan::Get
    } else if str_eq(action, "up") {
        VolumePlan::Up
    } else if str_eq(action, "down") {
        VolumePlan::Down
    } else if str_eq(action, "mute") {
        VolumePlan::Mute
    } else {
        let mut c = chars_of(action);
        let mut has_point = false;
        let mut i: usize = 0;
        while i < c.len()
            invariant
                i <= c@.len(),
                has_point <==> exists|j: int| 0 <= j < i && c@[j] == '.',
            decreases c@.len() - i,
        {
            if c[i] == '.' {
                has_point = true;
            }
            i = i + 1;
        }
        proof {
            if has_point {
                let j = choose|j: int| 0 <= j < i && c@[j] == '.';
                assert(c@.contains('.'));
            } else {
                assert(!c@.contains('.'));
            }
        }
        if !(c.len() > 0 && c[c.len() - 1] == '%') && !has_point {
            c.push('%');
        }
        VolumePlan::SetTo(string_from_chars(c.as_slice()))
    }
}

/// What `reso record` does with its action word.
#[derive(Debug, Clone, Copy, PartialEq, Eq, Structural)]
pub enum RecordPlan {
    Start,
    Stop,
    Status,
    Toggle,
}

/// The plan for a record action word: `start`, `stop`, `status`, anything else toggles.
pub open spec fn record_plan_of(a: Seq<char>) -> RecordPlan {
    if a == "start"@ {
        RecordPlan::Start
    } else if a == "stop"@ {
        RecordPlan::Stop
    } else if a == "status"@ {
        RecordPlan::Status
    } else {
        RecordPlan::Toggle
    }
}

/// What `reso record` does with its action word.
pub fn record_plan(action: &str) -> (r: RecordPlan)
    ensures
        r == record_plan_of(action@),
{
    if str_eq(action, "start") {
        RecordPlan::Start
    } else if str_eq(action, "stop") {
        RecordPlan::Stop
    } else if str_eq(action, "status") {
        RecordPlan::Status
    } else {
        RecordPlan::Toggle
    }
}

// ---------------------------------------------------------------------------
// The liked tracks history
// ---------------------------------------------------------------------------

/// The history shown of the liked tracks file: its last 100 lines, newest first.
pub open spec fn recent_lines_of(content: Seq<char>) -> Seq<Seq<char>> {
    let ls = lines(content);
    let n: int = if ls.len() < 100 {
        ls.len() as int
    } else {
        100
    };
    Seq::new(n as nat, |i: int| ls[ls.len() - 1 - i])
}

/// The history shown of the liked tracks file `content`.
pub fn recent_lines(content: &str) -> (r: Vec<String>)
    ensures
        strings_view(r@) == recent_lines_of(content@),
{
    let s = chars_of(content);
    let rs = line_ranges(s.as_slice());
    let ghost ls = lines(s@);
    let n: usize = if rs.len() < 100 {
        rs.len()
    } else {
        100
    };
    let mut out: Vec<String> = Vec::new();
    let mut i: usize = 0;
    while i < n
        invariant
            s@ == content@,
            ls == lines(s@),
            rs@.len() == ls.len(),
            forall|j: int|
                0 <= j < rs@.len() ==> {
                    &&& (#[trigger] rs@[j]).0 <= rs@[j].1 <= s@.len()
                    &&& s@.subrange(rs@[j].0 as int, rs@[j].1 as int) == ls[j]
                },
            n <= rs@.len(),
            n == (if ls.len() < 100 { ls.len() as int } else { 100 }),
            i <= n,
            strings_view(out@) == Seq::new(i as nat, |k: int| ls[ls.len() - 1 - k]),
        decreases n - i,
    {
        let idx = rs.len() - 1 - i;
        let (lo, hi) = rs[idx];
        let line = sub_vec(s.as_slice(), lo, hi);
        assert(line@ == ls[idx as int]);
        let ghost before = out@;
        out.push(string_from_chars(line.as_slice()));
        assert(strings_view(out@) =~= strings_view(before).push(line@));
        i = i + 1;
        assert(strings_view(out@) =~= Seq::new(i as nat, |k: int| ls[ls.len() - 1 - k]));
    }
    assert(strings_view(out@) =~= recent_lines_of(content@));
    out
}

/// `reso play` with a query that starts with `http://` or `https://` plays
/// that URL as the custom FLAC stream, whatever the catalog holds; with any
/// other query that is the exact id of a catalog station, it plays the first
/// such station.
pub proof fn lemma_play_query_rules(stations: Seq<Station>, default_id: Option<Seq<char>>, q: Seq<char>)
    ensures
        starts_with(q, "http://"@) || starts_with(q, "https://"@) ==> play_target(
            stations,
            default_id,
            Some(q),
        ) == Ok::<StationView, Seq<char>>(
            StationView {
                id: "custom-stream"@,
                name: "Custom Stream"@,
                url: q,
                codec: "FLAC"@,
                sample_rate: 44100,
                bit_depth: 16,
                homepage: None,
                tags: seq!["custom"@],
                favorite: false,
                rp_channel: None,
            },
        ),
        forall|k: int|
            0 <= k < stations.len() && !(starts_with(q, "http://"@) || starts_with(q, "https://"@))
                && stations[k].id@ == q && (forall|m: int| 0 <= m < k ==> (#[trigger] stations[m]).id@ != q)
                ==> play_target(stations, default_id, Some(q)) == Ok::<StationView, Seq<char>>(
                stations[k]@,
            ),
{
    assert forall|k: int|
        0 <= k < stations.len() && !(starts_with(q, "http://"@) || starts_with(q, "https://"@))
            && stations[k].id@ == q && (forall|m: int| 0 <= m < k ==> (#[trigger] stations[m]).id@ != q)
        implies play_target(stations, default_id, Some(q)) == Ok::<StationView, Seq<char>>(
        stations[k]@,
    ) by {
        lemma_first_where_at(stations, crate::config::id_is(q), k);
    }
}

} // verus!
