//! The online directories: Radio Paradise's now-playing record and
//! Radio-Browser's station search, as URLs to request and as the values read
//! from their replies. The HTTP requests themselves are made around this module.

use vstd::prelude::*;
use crate::config::{Station, StationView, strings_view};
use crate::events::{TrackMetadata, TrackView, copy_opt_string, opt_view};
use crate::text::{
    chars_of, dec_repr, push_dec, push_str, split_char, split_char_exec, str_to_uppercase,
    string_from_chars, string_from_vec, to_string, trim, trim_vec, uppercase,
};

verus! {

// ---------------------------------------------------------------------------
// Radio Paradise
// ---------------------------------------------------------------------------

/// Radio Paradise now playing response JSON schema.
#[derive(Debug, Clone)]
pub struct RadioParadiseNowPlaying {
    pub time: Option<u64>,
    pub artist: Option<String>,
    pub title: Option<String>,
    pub album: Option<String>,
    pub year: Option<String>,
    pub cover: Option<String>,
    pub cover_med: Option<String>,
    pub cover_small: Option<String>,
}

/// The URL of Radio Paradise's now-playing record for a channel (0: Main,
/// 1: Mellow, 2: Rock, 3: World).
pub open spec fn now_playing_url_of(channel: u32) -> Seq<char> {
    "https://api.radioparadise.com/api/now_playing?chan="@ + dec_repr(channel as nat)
}

/// The URL of Radio Paradise's now-playing record for a channel.
pub fn now_playing_url(channel: u32) -> (r: String)
    ensures
        r@ == now_playing_url_of(channel),
{
    let mut out: Vec<char> = Vec::new();
    push_str(&mut out, "https://api.radioparadise.com/api/now_playing?chan=");
    push_dec(&mut out, channel as u64);
    string_from_vec(out)
}

/// The first of three optional texts that is there.
pub open spec fn first_some(a: Option<Seq<char>>, b: Option<Seq<char>>, c: Option<Seq<char>>) -> Option<Seq<char>> {
    match a {
        Some(x) => Some(x),
        None => match b {
            Some(x) => Some(x),
            None => c,
        },
    }
}

/// The track a now-playing record describes: its artist, title, album and
/// year, the largest cover there is, and the seconds left.
pub open spec fn now_playing_track(rp: RadioParadiseNowPlaying) -> TrackView {
    TrackView {
        artist: opt_view(rp.artist),
        title: opt_view(rp.title),
        album: opt_view(rp.album),
        year: opt_view(rp.year),
        raw_title: None,
        cover_url: first_some(opt_view(rp.cover), opt_view(rp.cover_med), opt_view(rp.cover_small)),
        duration_remaining_secs: rp.time,
    }
}

impl RadioParadiseNowPlaying {
    /// The track this record describes.
    pub fn into_track(self) -> (r: TrackMetadata)
        ensures
            r@ == now_playing_track(self),
    {
        let cover = match self.cover {
            Some(c) => Some(c),
            None => match self.cover_med {
                Some(c) => Some(c),
                None => self.cover_small,
            },
        };
        TrackMetadata {
            artist: self.artist,
            title: self.title,
            album: self.album,
            year: self.year,
            raw_title: None,
            cover_url: cover,
            duration_remaining_secs: self.time,
        }
    }
}

// ---------------------------------------------------------------------------
// Radio-Browser
// ---------------------------------------------------------------------------

/// Radio-Browser station search response JSON schema.
#[derive(Debug, Clone)]
pub struct RadioBrowserStation {
    pub stationuuid: String,
    pub name: String,
    pub url: String,
    pub url_resolved: Option<String>,
    pub homepage: Option<String>,
    pub favicon: Option<String>,
    pub tags: Option<String>,
    pub codec: Option<String>,
    pub bitrate: Option<u32>,
    pub votes: Option<u32>,
}

/// The Radio-Browser mirrors, in the order they are tried.
pub open spec fn search_servers_of() -> Seq<Seq<char>> {
    seq![
        "https://de1.api.radio-browser.info"@,
        "https://nl1.api.radio-browser.info"@,
        "https://at1.api.radio-browser.info"@,
    ]
}

/// The Radio-Browser mirrors, in the order they are tried.
pub fn search_servers() -> (r: Vec<String>)
    ensures
        strings_view(r@) == search_servers_of(),
{
    let mut r: Vec<String> = Vec::new();
    r.push(to_string("https://de1.api.radio-browser.info"));
    r.push(to_string("https://nl1.api.radio-browser.info"));
    r.push(to_string("https://at1.api.radio-browser.info"));
    assert(strings_view(r@) =~= search_servers_of());
    r
}

/// The search URL on a mirror: stations named like `query`, at most `limit`,
/// by votes, optionally of a codec and a least bitrate. The query is put in
/// as it is.
pub open spec fn search_url_of(
    server: Seq<char>,
    query: Seq<char>,
    codec: Option<Seq<char>>,
    min_bitrate: Option<u32>,
    limit: u64,
) -> Seq<char> {
    server + "/json/stations/search?name="@ + query + "&limit="@ + dec_repr(limit as nat)
        + "&order=votes&reverse=true"@ + match codec {
        Some(c) => "&codec="@ + c,
        None => Seq::empty(),
    } + match min_bitrate {
        Some(b) => "&bitrateMin="@ + dec_repr(b as nat),
        None => Seq::empty(),
    }
}

/// The view of an optional text slice.
pub open spec fn opt_str(o: Option<&str>) -> Option<Seq<char>> {
    match o {
        Some(s) => Some(s@),
        None => None,
    }
}

/// The search URL on a mirror.
pub fn search_url(
    server: &str,
    query: &str,
    codec: Option<&str>,
    min_bitrate: Option<u32>,
    limit: usize,
) -> (r: String)
    ensures
        r@ == search_url_of(server@, query@, opt_str(codec), min_bitrate, limit as u64),
{
    let mut out: Vec<char> = Vec::new();
    push_str(&mut out, server);
    push_str(&mut out, "/json/stations/search?name=");
    push_str(&mut out, query);
    push_str(&mut out, "&limit=");
    push_dec(&mut out, limit as u64);
    push_str(&mut out, "&order=votes&reverse=true");
    if let Some(c) = codec {
        push_str(&mut out, "&codec=");
        push_str(&mut out, c);
    }
    if let Some(b) = min_bitrate {
        push_str(&mut out, "&bitrateMin=");
        push_dec(&mut out, b as u64);
    }
    let ghost tail1 = match opt_str(codec) {
        Some(c) => "&codec="@ + c,
        None => Seq::<char>::empty(),
    };
    let ghost tail2 = match min_bitrate {
        Some(b) => "&bitrateMin="@ + dec_repr(b as nat),
        None => Seq::<char>::empty(),
    };
    assert(out@ =~= server@ + "/json/stations/search?name="@ + query@ + "&limit="@ + dec_repr(
        limit as nat,
    ) + "&order=votes&reverse=true"@ + tail1 + tail2);
    string_from_vec(out)
}

/// The number of bytes of `c` in UTF-8.
pub open spec fn utf8_width(c: char) -> nat {
    let u = c as u32;
    if u < 0x80 {
        1
    } else if u < 0x800 {
        2
    } else if u < 0x10000 {
        3
    } else {
        4
    }
}

/// The number of bytes of `s` in UTF-8 (`str::len`).
pub open spec fn utf8_len(s: Seq<char>) -> nat
    decreases s.len(),
{
    if s.len() == 0 {
        0
    } else {
        utf8_width(s[0]) + utf8_len(s.drop_first())
    }
}

/// The characters that fill exactly the first `n` bytes of `s` in UTF-8
/// (`&s[..n]`); `None` when byte `n` falls inside a character or past the end.
pub open spec fn byte_prefix(s: Seq<char>, n: nat) -> Option<Seq<char>>
    decreases s.len(),
{
    if n == 0 {
        Some(Seq::empty())
    } else if s.len() == 0 || utf8_width(s[0]) > n {
        None
    } else {
        match byte_prefix(s.drop_first(), (n - utf8_width(s[0])) as nat) {
            Some(p) => Some(seq![s[0]] + p),
            None => None,
        }
    }
}

/// The byte length of the id part taken from a station UUID: 8, or fewer for a shorter UUID.
pub open spec fn uuid_cut(uuid: Seq<char>) -> nat {
    if utf8_len(uuid) < 8 {
        utf8_len(uuid)
    } else {
        8
    }
}

/// The words of a comma-separated tag list, trimmed, without the empty ones.
pub open spec fn tag_words(tags: Seq<char>) -> Seq<Seq<char>> {
    split_char(tags, ',').map_values(|t: Seq<char>| trim(t)).filter(|t: Seq<char>| t.len() > 0)
}

/// The catalog station a Radio-Browser station becomes: id `rb-` and the
/// first 8 bytes of its UUID, its trimmed name, the resolved URL when there
/// is one, its codec upper-cased (`UNKNOWN` when absent), 44.1 kHz and 16
/// bits, its homepage and tag words, not a favorite, no Radio Paradise channel.
pub open spec fn station_of(rb: RadioBrowserStation) -> StationView {
    StationView {
        id: "rb-"@ + byte_prefix(rb.stationuuid@, uuid_cut(rb.stationuuid@))->0,
        name: trim(rb.name@),
        url: match rb.url_resolved {
            Some(u) => u@,
            None => rb.url@,
        },
        codec: uppercase(
            match rb.codec {
                Some(c) => c@,
                None => "UNKNOWN"@,
            },
        ),
        sample_rate: 44100,
        bit_depth: 16,
        homepage: opt_view(rb.homepage),
        tags: tag_words(match rb.tags {
            Some(t) => t@,
            None => Seq::empty(),
        }),
        favorite: false,
        rp_channel: None,
    }
}

/// The id part of a UUID, a prefix of its first 8 bytes, falls on a character boundary.
pub open spec fn uuid_cut_ok(uuid: Seq<char>) -> bool {
    byte_prefix(uuid, uuid_cut(uuid)) is Some
}

/// The number of bytes of `c` in UTF-8.
fn utf8_width_exec(c: char) -> (r: usize)
    ensures
        r == utf8_width(c),
{
    let u: u32 = c as u32;
    if u < 0x80 {
        1
    } else if u < 0x800 {
        2
    } else if u < 0x10000 {
        3
    } else {
        4
    }
}

proof fn lemma_utf8_len_sub(s: Seq<char>, i: int)
    requires
        0 <= i < s.len(),
    ensures
        utf8_len(s.subrange(i, s.len() as int)) == utf8_width(s[i]) + utf8_len(
            s.subrange(i + 1, s.len() as int),
        ),
{
    assert(s.subrange(i, s.len() as int).drop_first() =~= s.subrange(i + 1, s.len() as int));
}

/// The characters of the first `min(8, len)` bytes of `uuid`.
fn uuid_prefix(uuid: &[char]) -> (r: Vec<char>)
    requires
        uuid_cut_ok(uuid@),
    ensures
        r@ == byte_prefix(uuid@, uuid_cut(uuid@))->0,
{
    // the byte length, counted up to 8
    let mut total: usize = 0;
    let mut j: usize = 0;
    assert(uuid@.subrange(0, uuid@.len() as int) =~= uuid@);
    while j < uuid.len() && total < 8
        invariant
            j <= uuid@.len(),
            total < 8 ==> total + utf8_len(uuid@.subrange(j as int, uuid@.len() as int)) == utf8_len(
                uuid@,
            ),
            total >= 8 ==> utf8_len(uuid@) >= 8,
            total <= 12,
        decreases uuid@.len() - j,
    {
        proof {
            lemma_utf8_len_sub(uuid@, j as int);
        }
        total = total + utf8_width_exec(uuid[j]);
        j = j + 1;
        proof {
            if total >= 8 {
                assert(utf8_len(uuid@.subrange(j as int, uuid@.len() as int)) >= 0);
            }
        }
    }
    let n: usize = if total < 8 {
        assert(uuid@.subrange(j as int, uuid@.len() as int).len() == 0);
        total
    } else {
        8
    };
    assert(n == uuid_cut(uuid@));
    // the characters of the first n bytes
    let mut out: Vec<char> = Vec::new();
    let mut used: usize = 0;
    let mut i: usize = 0;
    while used < n
        invariant
            n <= 8,
            used <= n,
            i <= uuid@.len(),
            byte_prefix(uuid@, n as nat) is Some,
            byte_prefix(uuid@, n as nat) == match byte_prefix(
                uuid@.subrange(i as int, uuid@.len() as int),
                (n - used) as nat,
            ) {
                Some(p) => Some(out@ + p),
                None => None::<Seq<char>>,
            },
        decreases n - used,
    {
        let ghost rest = uuid@.subrange(i as int, uuid@.len() as int);
        assert(rest.len() > 0 && utf8_width(rest[0]) <= n - used);
        assert(rest[0] == uuid@[i as int]);
        let w = utf8_width_exec(uuid[i]);
        proof {
            assert(rest.drop_first() =~= uuid@.subrange(i + 1, uuid@.len() as int));
            match byte_prefix(rest.drop_first(), (n - used - w) as nat) {
                Some(p) => {
                    assert(out@ + (seq![rest[0]] + p) =~= out@.push(uuid@[i as int]) + p);
                },
                None => {},
            }
        }
        out.push(uuid[i]);
        used = used + w;
        i = i + 1;
    }
    proof {
        assert(byte_prefix(uuid@.subrange(i as int, uuid@.len() as int), 0) == Some(
            Seq::<char>::empty(),
        ));
        assert(out@ + Seq::<char>::empty() =~= out@);
    }
    out
}

/// The tag words of a comma-separated tag list.
fn tag_words_exec(tags: &[char]) -> (r: Vec<String>)
    ensures
        strings_view(r@) == tag_words(tags@),
{
    let pieces = split_char_exec(tags, ',');
    let ghost pv = pieces@.map_values(|v: Vec<char>| v@);
    let ghost tv = pv.map_values(|t: Seq<char>| trim(t));
    let ghost keep = |t: Seq<char>| t.len() > 0;
    let mut out: Vec<String> = Vec::new();
    let mut i: usize = 0;
    while i < pieces.len()
        invariant
            pv == pieces@.map_values(|v: Vec<char>| v@),
            pv == split_char(tags@, ','),
            tv == pv.map_values(|t: Seq<char>| trim(t)),
            keep == (|t: Seq<char>| t.len() > 0),
            i <= pieces@.len(),
            strings_view(out@) == tv.subrange(0, i as int).filter(keep),
        decreases pieces@.len() - i,
    {
        let t = trim_vec(pieces[i].as_slice());
        let ghost before = out@;
        if t.len() > 0 {
            out.push(string_from_chars(t.as_slice()));
        }
        proof {
            let s1 = tv.subrange(0, i + 1);
            assert(s1.drop_last() =~= tv.subrange(0, i as int));
            assert(s1.last() == t@);
            reveal_with_fuel(Seq::filter, 1);
            if t@.len() > 0 {
                assert(strings_view(out@) =~= strings_view(before).push(t@));
            } else {
                assert(strings_view(out@) =~= strings_view(before));
            }
        }
        i = i + 1;
    }
    assert(tv.subrange(0, i as int) =~= tv);
    out
}

impl RadioBrowserStation {
    /// The catalog station this Radio-Browser station becomes. Its UUID must
    /// not have a character across its eighth byte.
    pub fn into_station(self) -> (r: Station)
        requires
            uuid_cut_ok(self.stationuuid@),
        ensures
            r@ == station_of(self),
    {
        let uuid = chars_of(self.stationuuid.as_str());
        let pre = uuid_prefix(uuid.as_slice());
        let mut id: Vec<char> = Vec::new();
        push_str(&mut id, "rb-");
        let mut k: usize = 0;
        let ghost base = id@;
        while k < pre.len()
            invariant
                k <= pre@.len(),
                id@ == base + pre@.subrange(0, k as int),
            decreases pre@.len() - k,
        {
            id.push(pre[k]);
            k = k + 1;
            assert(id@ =~= base + pre@.subrange(0, k as int));
        }
        assert(pre@.subrange(0, k as int) =~= pre@);
        let name_chars = chars_of(self.name.as_str());
        let name = trim_vec(name_chars.as_slice());
        let url = match self.url_resolved {
            Some(u) => u,
            None => self.url,
        };
        let codec = match &self.codec {
            Some(c) => str_to_uppercase(c.as_str()),
            None => str_to_uppercase("UNKNOWN"),
        };
        let tag_chars = match &self.tags {
            Some(t) => chars_of(t.as_str()),
            None => Vec::new(),
        };
        let tags = tag_words_exec(tag_chars.as_slice());
        Station {
            id: string_from_vec(id),
            name: string_from_chars(name.as_slice()),
            url,
            codec,
            sample_rate: 44100,
            bit_depth: 16,
            homepage: self.homepage,
            tags,
            favorite: false,
            rp_channel: None,
        }
    }
}

} // verus!

verus! {

// ---------------------------------------------------------------------------
// Trying the mirrors in turn
// ---------------------------------------------------------------------------

/// What one request to a mirror came to.
#[derive(Debug, Clone, Copy, PartialEq, Eq, Structural)]
pub enum MirrorOutcome {
    /// The mirror answered with a list of stations.
    Stations,
    /// The mirror answered with success, but the body was not a station list.
    Unreadable,
    /// The request failed, or the mirror answered with an error status.
    Failed,
}

/// What the search does next.
#[derive(Debug, Clone, Copy, PartialEq, Eq, Structural)]
pub enum MirrorStep {
    /// Ask the mirror at this position of `search_servers`.
    Try(usize),
    /// Give the stations just read.
    Found,
    /// Every mirror was tried and one failed: give the last failure.
    LastError,
    /// Every mirror was tried and none failed: give an empty list.
    NoStations,
}

/// A search that tries the mirrors in order until one answers with stations.
#[derive(Debug, Clone, Copy)]
pub struct MirrorSearch {
    /// How many mirrors there are.
    pub mirrors: usize,
    /// How many have been tried.
    pub tried: usize,
    /// Whether a try has failed.
    pub failed: bool,
}

/// The step after `tried` of `mirrors` mirrors were tried without stations.
pub open spec fn mirror_step_of(mirrors: usize, tried: usize, failed: bool) -> MirrorStep {
    if tried < mirrors {
        MirrorStep::Try(tried)
    } else if failed {
        MirrorStep::LastError
    } else {
        MirrorStep::NoStations
    }
}

impl MirrorSearch {
    /// A search over `mirrors` mirrors, none tried yet.
    pub fn new(mirrors: usize) -> (r: MirrorSearch)
        ensures
            r == (MirrorSearch { mirrors, tried: 0, failed: false }),
    {
        MirrorSearch { mirrors, tried: 0, failed: false }
    }

    /// The step to take now.
    pub fn step(&self) -> (r: MirrorStep)
        ensures
            r == mirror_step_of(self.mirrors, self.tried, self.failed),
    {
        if self.tried < self.mirrors {
            MirrorStep::Try(self.tried)
        } else if self.failed {
            MirrorStep::LastError
        } else {
            MirrorStep::NoStations
        }
    }

    /// Records what the request to the mirror in turn came to, and gives the
    /// next step: stations end the search; otherwise the next mirror is
    /// tried, a failure being remembered.
    pub fn on_outcome(&mut self, outcome: MirrorOutcome) -> (r: MirrorStep)
        requires
            old(self).tried < old(self).mirrors,
        ensures
            outcome == MirrorOutcome::Stations ==> r == MirrorStep::Found && *final(self) == *old(
                self,
            ),
            outcome != MirrorOutcome::Stations ==> *final(self) == (MirrorSearch {
                mirrors: old(self).mirrors,
                tried: (old(self).tried + 1) as usize,
                failed: old(self).failed || outcome == MirrorOutcome::Failed,
            }) && r == mirror_step_of(final(self).mirrors, final(self).tried, final(self).failed),
    {
        match outcome {
            MirrorOutcome::Stations => MirrorStep::Found,
            MirrorOutcome::Unreadable => {
                self.tried = self.tried + 1;
                self.step()
            },
            MirrorOutcome::Failed => {
                self.tried = self.tried + 1;
                self.failed = true;
                self.step()
            },
        }
    }
}

/// A search never asks a mirror twice or one past the last: each step is a
/// try of the next untried mirror, and once all are tried it ends, with the
/// last failure exactly when some try failed.
pub proof fn lemma_mirror_steps(s: MirrorSearch)
    requires
        s.tried <= s.mirrors,
    ensures
        mirror_step_of(s.mirrors, s.tried, s.failed) matches MirrorStep::Try(i) ==> i == s.tried
            && i < s.mirrors,
        s.tried == s.mirrors ==> (mirror_step_of(s.mirrors, s.tried, s.failed) == MirrorStep::LastError
            <==> s.failed),
        mirror_step_of(s.mirrors, s.tried, s.failed) != MirrorStep::Found,
{
}

} // verus!
