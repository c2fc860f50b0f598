//! Scrobbling for Last.fm and ListenBrainz: when a track counts as played
//! (at half its length or four minutes into it, whichever comes first, once
//! per track), and the signed Last.fm form that announces or scrobbles it.
//!
//! The clock and the HTTP requests are outside work: the caller passes the
//! current time in seconds and posts the forms returned here.

use vstd::prelude::*;
use md5::{Digest, Md5};
use crate::config::{LastFmConfig, ListenBrainzConfig};
use crate::events::{TrackMetadata, TrackView, opt_view};
use crate::json::{JsonNumber, JsonValue};
use crate::seq_search::{first_where, lemma_first_where};
use crate::text::{
    chars_eq, chars_of, lemma_text_lt_total, lemma_text_lt_transitive, text_less, text_lt, to_string,
};

verus! {

// ---------------------------------------------------------------------------
// Form fields: a map from keys to values kept in increasing key order
// ---------------------------------------------------------------------------

/// The views of a list of key/value pairs.
pub open spec fn pairs_view(v: Seq<(String, String)>) -> Seq<(Seq<char>, Seq<char>)> {
    v.map_values(|p: (String, String)| (p.0@, p.1@))
}

/// The pairs whose key does not come before `k`.
pub open spec fn key_not_before(k: Seq<char>) -> spec_fn((Seq<char>, Seq<char>)) -> bool {
    |p: (Seq<char>, Seq<char>)| !text_lt(p.0, k)
}

/// `k` set to `v` in a list kept in increasing key order (`BTreeMap::insert`):
/// the value of an existing key is replaced, a new key goes to its place.
pub open spec fn kv_insert(m: Seq<(Seq<char>, Seq<char>)>, k: Seq<char>, v: Seq<char>) -> Seq<
    (Seq<char>, Seq<char>),
> {
    match first_where(m, key_not_before(k), 0) {
        Some(i) => if m[i].0 == k {
            m.update(i, (k, v))
        } else {
            m.insert(i, (k, v))
        },
        None => m.push((k, v)),
    }
}

/// Set `k` to `v` in the key-ordered list `m`.
pub fn kv_insert_exec(m: &mut Vec<(String, String)>, k: &str, v: &str)
    ensures
        pairs_view(final(m)@) == kv_insert(pairs_view(old(m)@), k@, v@),
{
    let ghost pv = pairs_view(m@);
    let kc = chars_of(k);
    proof {
        lemma_first_where(pv, key_not_before(k@), 0);
    }
    let mut i: usize = 0;
    while i < m.len()
        invariant
            pv == pairs_view(m@),
            m@ == old(m)@,
            kc@ == k@,
            i <= m@.len(),
            forall|j: int| 0 <= j < i ==> !key_not_before(k@)(#[trigger] pv[j]),
            match first_where(pv, key_not_before(k@), 0) {
                Some(x) => 0 <= x < pv.len() && key_not_before(k@)(pv[x]) && forall|j: int|
                    0 <= j < x ==> !key_not_before(k@)(pv[j]),
                None => forall|j: int| 0 <= j < pv.len() ==> !key_not_before(k@)(pv[j]),
            },
        decreases m@.len() - i,
    {
        let ki = chars_of(m[i].0.as_str());
        assert(pv[i as int].0 == ki@);
        if !text_less(ki.as_slice(), kc.as_slice()) {
            proof {
                match first_where(pv, key_not_before(k@), 0) {
                    Some(x) => {
                        if x < i {
                            assert(!key_not_before(k@)(pv[x]));
                        }
                        if x > i {
                            assert(!key_not_before(k@)(pv[i as int]));
                        }
                    },
                    None => {
                        assert(!key_not_before(k@)(pv[i as int]));
                    },
                }
            }
            if chars_eq(ki.as_slice(), kc.as_slice()) {
                m.set(i, (to_string(k), to_string(v)));
                assert(pairs_view(m@) =~= pv.update(i as int, (k@, v@)));
            } else {
                m.insert(i, (to_string(k), to_string(v)));
                assert(pairs_view(m@) =~= pv.insert(i as int, (k@, v@)));
            }
            return;
        }
        i = i + 1;
    }
    proof {
        if let Some(x) = first_where(pv, key_not_before(k@), 0) {
            assert(!key_not_before(k@)(pv[x]));
        }
    }
    m.push((to_string(k), to_string(v)));
    assert(pairs_view(m@) =~= pv.push((k@, v@)));
}

// ---------------------------------------------------------------------------
// The Last.fm signature
// ---------------------------------------------------------------------------

/// The MD5 digest of `data`, as computed by the `md-5` crate.
pub uninterp spec fn md5_digest_of(data: Seq<u8>) -> Seq<u8>;

/// `md5::Md5` (through `Digest::new`, `update` and `finalize`): the digest of
/// `data`, named `md5_digest_of`; it is 16 bytes long (`OutputSize = U16`).
#[verifier::external_body]
fn md5_digest(data: &[u8]) -> (r: Vec<u8>)
    ensures
        r@ == md5_digest_of(data@),
        r@.len() == 16,
{
    let mut hasher = Md5::new();
    hasher.update(data);
    hasher.finalize().to_vec()
}

/// The lower-case hexadecimal digits.
pub open spec fn hex_chars() -> Seq<char> {
    seq!['0', '1', '2', '3', '4', '5', '6', '7', '8', '9', 'a', 'b', 'c', 'd', 'e', 'f']
}

/// The lower-case hexadecimal digit of `d`.
pub open spec fn hex_digit(d: int) -> char {
    hex_chars()[d]
}

/// The bytes `b` in lower-case hexadecimal, two digits a byte, high digit
/// first (`LowerHex` of a byte array).
pub open spec fn hex_lower(b: Seq<u8>) -> Seq<char>
    decreases b.len(),
{
    if b.len() == 0 {
        Seq::empty()
    } else {
        hex_lower(b.drop_last()) + seq![hex_digit(b.last() as int / 16), hex_digit(b.last() as int % 16)]
    }
}

/// The signed part of a form: each key and its value, in order, leaving
/// out `format` and `api_sig`, then the secret.
pub open spec fn signature_base(params: Seq<(Seq<char>, Seq<char>)>, secret: Seq<char>) -> Seq<char>
    decreases params.len(),
{
    if params.len() == 0 {
        secret
    } else {
        let p = params[0];
        let rest = signature_base(params.drop_first(), secret);
        if p.0 == "format"@ || p.0 == "api_sig"@ {
            rest
        } else {
            p.0 + p.1 + rest
        }
    }
}

/// The Last.fm method signature of a form: the MD5 of the UTF-8 of its
/// signature base, in lower-case hexadecimal.
pub open spec fn lastfm_signature(params: Seq<(Seq<char>, Seq<char>)>, secret: Seq<char>) -> Seq<char> {
    hex_lower(md5_digest_of(vstd::utf8::encode_utf8(signature_base(params, secret))))
}

/// The lower-case hexadecimal digit of `d`.
fn hex_digit_exec(d: u8) -> (c: char)
    requires
        d < 16,
    ensures
        c == hex_digit(d as int),
{
    let table: [char; 16] = [
        '0', '1', '2', '3', '4', '5', '6', '7', '8', '9', 'a', 'b', 'c', 'd', 'e', 'f',
    ];
    assert(table@ =~= hex_chars());
    table[d as usize]
}

/// The bytes of a digest in lower-case hexadecimal, two digits a byte.
pub fn hex_digest(digest: &[u8]) -> (r: String)
    ensures
        r@ == hex_lower(digest@),
{
    let mut out: Vec<char> = Vec::new();
    let mut t: usize = 0;
    while t < digest.len()
        invariant
            t <= digest@.len(),
            out@ == hex_lower(digest@.subrange(0, t as int)),
        decreases digest@.len() - t,
    {
        let b = digest[t];
        out.push(hex_digit_exec(b / 16));
        out.push(hex_digit_exec(b % 16));
        proof {
            let s1 = digest@.subrange(0, t + 1);
            assert(s1.drop_last() =~= digest@.subrange(0, t as int));
            assert(s1.last() == b);
            assert(out@ =~= hex_lower(s1));
        }
        t = t + 1;
    }
    assert(digest@.subrange(0, t as int) =~= digest@);
    crate::text::string_from_vec(out)
}

/// Calculates Last.fm MD5 API method signature.
pub fn calculate_lastfm_signature(params: &Vec<(String, String)>, secret: &str) -> (r: String)
    ensures
        r@ == lastfm_signature(pairs_view(params@), secret@),
{
    let ghost pv = pairs_view(params@);
    // the signature base, built from the end
    let mut base: Vec<char> = chars_of(secret);
    let mut i: usize = params.len();
    assert(pv.subrange(params@.len() as int, params@.len() as int) =~= Seq::<(Seq<char>, Seq<char>)>::empty());
    while i > 0
        invariant
            pv == pairs_view(params@),
            i <= params@.len(),
            base@ == signature_base(pv.subrange(i as int, params@.len() as int), secret@),
        decreases i,
    {
        i = i - 1;
        let k = chars_of(params[i].0.as_str());
        let v = chars_of(params[i].1.as_str());
        let ghost sub = pv.subrange(i as int, params@.len() as int);
        assert(sub[0] == pv[i as int]);
        assert(sub.drop_first() =~= pv.subrange(i + 1, params@.len() as int));
        if !(chars_eq(k.as_slice(), chars_of("format").as_slice()) || chars_eq(
            k.as_slice(),
            chars_of("api_sig").as_slice(),
        )) {
            let mut nb: Vec<char> = Vec::new();
            let mut j: usize = 0;
            while j < k.len()
                invariant
                    j <= k@.len(),
                    nb@ == k@.subrange(0, j as int),
                decreases k@.len() - j,
            {
                nb.push(k[j]);
                j = j + 1;
                assert(nb@ =~= k@.subrange(0, j as int));
            }
            let mut j: usize = 0;
            while j < v.len()
                invariant
                    j <= v@.len(),
                    nb@ == k@ + v@.subrange(0, j as int),
                decreases v@.len() - j,
            {
                nb.push(v[j]);
                j = j + 1;
                assert(nb@ =~= k@ + v@.subrange(0, j as int));
            }
            let mut j: usize = 0;
            let ghost kv = nb@;
            while j < base.len()
                invariant
                    j <= base@.len(),
                    nb@ == kv + base@.subrange(0, j as int),
                decreases base@.len() - j,
            {
                nb.push(base[j]);
                j = j + 1;
                assert(nb@ =~= kv + base@.subrange(0, j as int));
            }
            proof {
                assert(k@.subrange(0, k@.len() as int) =~= k@);
                assert(v@.subrange(0, v@.len() as int) =~= v@);
                assert(base@.subrange(0, base@.len() as int) =~= base@);
                assert(nb@ =~= k@ + v@ + base@);
            }
            base = nb;
        }
    }
    assert(pv.subrange(0, params@.len() as int) =~= pv);
    let base_string = crate::text::string_from_chars(base.as_slice());
    let bytes = base_string.as_str().as_bytes();
    let digest = md5_digest(bytes);
    hex_digest(digest.as_slice())
}

// ---------------------------------------------------------------------------
// The tracker
// ---------------------------------------------------------------------------

/// Seconds of playback after which a track counts as played at the latest (4 minutes).
pub const SCROBBLE_THRESHOLD_SECS: u64 = 240;

/// Seconds of playback after which a track counts as played: half its length
/// when the metadata gives one (the seconds left when it was reported), or 4
/// minutes, whichever comes first.
pub open spec fn threshold_of(t: TrackView) -> u64 {
    match t.duration_remaining_secs {
        Some(d) => if d / 2 < SCROBBLE_THRESHOLD_SECS {
            d / 2
        } else {
            SCROBBLE_THRESHOLD_SECS
        },
        None => SCROBBLE_THRESHOLD_SECS,
    }
}

/// Seconds of playback after which a track counts as played.
pub fn scrobble_threshold(t: &TrackMetadata) -> (r: u64)
    ensures
        r == threshold_of(t@),
{
    match t.duration_remaining_secs {
        Some(d) => if d / 2 < SCROBBLE_THRESHOLD_SECS {
            d / 2
        } else {
            SCROBBLE_THRESHOLD_SECS
        },
        None => SCROBBLE_THRESHOLD_SECS,
    }
}

/// A track to announce or scrobble.
pub struct PlayedTrack {
    pub artist: String,
    pub title: String,
    pub album: Option<String>,
}

/// The model of a [`PlayedTrack`].
pub struct PlayedView {
    pub artist: Seq<char>,
    pub title: Seq<char>,
    pub album: Option<Seq<char>>,
}

impl View for PlayedTrack {
    type V = PlayedView;

    open spec fn view(&self) -> PlayedView {
        PlayedView { artist: self.artist@, title: self.title@, album: opt_view(self.album) }
    }
}

/// The view of an optional played track.
pub open spec fn played_opt(p: Option<PlayedTrack>) -> Option<PlayedView> {
    match p {
        Some(x) => Some(x@),
        None => None,
    }
}

/// Tracks ongoing playback duration to determine when to trigger a scrobble.
/// Times are seconds of a monotonic clock, passed in by the caller.
pub struct ScrobbleTracker {
    pub lastfm: LastFmConfig,
    pub listenbrainz: ListenBrainzConfig,
    pub current_track: Option<TrackMetadata>,
    pub start_secs: Option<u64>,
    pub scrobbled: bool,
}

/// The model of the playback record of a [`ScrobbleTracker`].
pub struct TrackingView {
    pub current_track: Option<TrackView>,
    pub start_secs: Option<u64>,
    pub scrobbled: bool,
}

impl View for ScrobbleTracker {
    type V = TrackingView;

    open spec fn view(&self) -> TrackingView {
        TrackingView {
            current_track: match self.current_track {
                Some(t) => Some(t@),
                None => None,
            },
            start_secs: self.start_secs,
            scrobbled: self.scrobbled,
        }
    }
}

/// The artist, title and album of a track that has both an artist and a title.
pub open spec fn played_of(t: TrackView) -> Option<PlayedView> {
    match (t.artist, t.title) {
        (Some(a), Some(ti)) => Some(PlayedView { artist: a, title: ti, album: t.album }),
        _ => None,
    }
}

/// What a reported track does: a different track restarts the count at
/// `now` and is announced when it has an artist and a title; the same track
/// changes nothing.
pub open spec fn track_change_step(s: TrackingView, t: TrackView, now: u64) -> (
    TrackingView,
    Option<PlayedView>,
) {
    if s.current_track == Some(t) {
        (s, None)
    } else {
        (TrackingView { current_track: Some(t), start_secs: Some(now), scrobbled: false }, played_of(t))
    }
}

/// The seconds from `start` to `now` (none when the clock reads earlier).
pub open spec fn elapsed(start: u64, now: u64) -> nat {
    if now >= start {
        (now - start) as nat
    } else {
        0
    }
}

/// What a tick at `now` does: a track not yet scrobbled, with an artist and a
/// title, played for the threshold or longer, is scrobbled, once.
pub open spec fn scrobble_tick_step(s: TrackingView, now: u64) -> (TrackingView, Option<PlayedView>) {
    if s.scrobbled {
        (s, None)
    } else {
        match (s.start_secs, s.current_track) {
            (Some(start), Some(t)) => if elapsed(start, now) >= threshold_of(t) && played_of(
                t,
            ) is Some {
                (TrackingView { scrobbled: true, ..s }, played_of(t))
            } else {
                (s, None)
            },
            _ => (s, None),
        }
    }
}

/// The played-track record of a track with an artist and a title.
fn played_of_exec(t: &TrackMetadata) -> (r: Option<PlayedTrack>)
    ensures
        played_opt(r) == played_of(t@),
{
    match (&t.artist, &t.title) {
        (Some(a), Some(ti)) => Some(
            PlayedTrack {
                artist: a.clone(),
                title: ti.clone(),
                album: crate::events::copy_opt_string(&t.album),
            },
        ),
        _ => None,
    }
}

impl ScrobbleTracker {
    /// Creates a new scrobble tracker.
    pub fn new(lastfm: LastFmConfig, listenbrainz: ListenBrainzConfig) -> (r: ScrobbleTracker)
        ensures
            r@ == (TrackingView { current_track: None, start_secs: None, scrobbled: false }),
            r.lastfm == lastfm,
            r.listenbrainz == listenbrainz,
    {
        ScrobbleTracker { lastfm, listenbrainz, current_track: None, start_secs: None, scrobbled: false }
    }

    /// Updates the active track at time `now`; if it changed, the count
    /// restarts and the track to announce as now playing is returned.
    pub fn on_track_change(&mut self, track: TrackMetadata, now: u64) -> (r: Option<PlayedTrack>)
        ensures
            (final(self)@, played_opt(r)) == track_change_step(old(self)@, track@, now),
            final(self).lastfm == old(self).lastfm,
            final(self).listenbrainz == old(self).listenbrainz,
    {
        let same = match &self.current_track {
            Some(c) => c.same_as(&track),
            None => false,
        };
        if same {
            return None;
        }
        let announce = played_of_exec(&track);
        self.current_track = Some(track);
        self.start_secs = Some(now);
        self.scrobbled = false;
        announce
    }

    /// Periodic tick at time `now`: the track to scrobble when the threshold is reached.
    pub fn tick(&mut self, now: u64) -> (r: Option<PlayedTrack>)
        ensures
            (final(self)@, played_opt(r)) == scrobble_tick_step(old(self)@, now),
            final(self).lastfm == old(self).lastfm,
            final(self).listenbrainz == old(self).listenbrainz,
    {
        if self.scrobbled {
            return None;
        }
        match (self.start_secs, &self.current_track) {
            (Some(start), Some(track)) => {
                let el: u64 = if now >= start {
                    now - start
                } else {
                    0
                };
                if el >= scrobble_threshold(track) {
                    let p = played_of_exec(track);
                    if p.is_some() {
                        self.scrobbled = true;
                    }
                    p
                } else {
                    None
                }
            },
            _ => None,
        }
    }
}

// ---------------------------------------------------------------------------
// The Last.fm forms
// ---------------------------------------------------------------------------

/// The fields of a Last.fm call before signing: method, key, session,
/// artist, track, then the timestamp and the album when given.
pub open spec fn lastfm_fields(
    method: Seq<char>,
    api_key: Seq<char>,
    sk: Seq<char>,
    p: PlayedView,
    timestamp: Option<Seq<char>>,
) -> Seq<(Seq<char>, Seq<char>)> {
    let m0 = kv_insert(
        kv_insert(
            kv_insert(
                kv_insert(kv_insert(Seq::empty(), "method"@, method), "api_key"@, api_key),
                "sk"@,
                sk,
            ),
            "artist"@,
            p.artist,
        ),
        "track"@,
        p.title,
    );
    let m1 = match timestamp {
        Some(t) => kv_insert(m0, "timestamp"@, t),
        None => m0,
    };
    match p.album {
        Some(a) => kv_insert(m1, "album"@, a),
        None => m1,
    }
}

/// A form with its signature and the JSON format added.
pub open spec fn signed_form(fields: Seq<(Seq<char>, Seq<char>)>, secret: Seq<char>) -> Seq<
    (Seq<char>, Seq<char>),
> {
    kv_insert(
        kv_insert(fields, "api_sig"@, lastfm_signature(fields, secret)),
        "format"@,
        "json"@,
    )
}

/// The Last.fm form of a call, when Last.fm is enabled with a key, a secret
/// and a session key.
pub open spec fn lastfm_form(
    cfg: LastFmConfig,
    method: Seq<char>,
    p: PlayedView,
    timestamp: Option<Seq<char>>,
) -> Option<Seq<(Seq<char>, Seq<char>)>> {
    match (cfg.api_key, cfg.api_secret, cfg.session_key) {
        (Some(k), Some(s), Some(sk)) => if cfg.enabled {
            Some(signed_form(lastfm_fields(method, k@, sk@, p, timestamp), s@))
        } else {
            None
        },
        _ => None,
    }
}

/// The view of an optional form.
pub open spec fn form_opt(f: Option<Vec<(String, String)>>) -> Option<Seq<(Seq<char>, Seq<char>)>> {
    match f {
        Some(v) => Some(pairs_view(v@)),
        None => None,
    }
}

/// The signed Last.fm form of a call.
fn build_lastfm_form(
    cfg: &LastFmConfig,
    method: &str,
    p: &PlayedTrack,
    timestamp: Option<&str>,
) -> (r: Option<Vec<(String, String)>>)
    ensures
        form_opt(r) == lastfm_form(
            *cfg,
            method@,
            p@,
            match timestamp {
                Some(t) => Some(t@),
                None => None,
            },
        ),
{
    if !cfg.enabled {
        return None;
    }
    let (key, secret, sk) = match (&cfg.api_key, &cfg.api_secret, &cfg.session_key) {
        (Some(k), Some(s), Some(sk)) => (k, s, sk),
        _ => {
            return None;
        },
    };
    let mut params: Vec<(String, String)> = Vec::new();
    assert(pairs_view(params@) =~= Seq::<(Seq<char>, Seq<char>)>::empty());
    kv_insert_exec(&mut params, "method", method);
    kv_insert_exec(&mut params, "api_key", key.as_str());
    kv_insert_exec(&mut params, "sk", sk.as_str());
    kv_insert_exec(&mut params, "artist", p.artist.as_str());
    kv_insert_exec(&mut params, "track", p.title.as_str());
    if let Some(t) = timestamp {
        kv_insert_exec(&mut params, "timestamp", t);
    }
    if let Some(a) = &p.album {
        kv_insert_exec(&mut params, "album", a.as_str());
    }
    let sig = calculate_lastfm_signature(&params, secret.as_str());
    kv_insert_exec(&mut params, "api_sig", sig.as_str());
    kv_insert_exec(&mut params, "format", "json");
    Some(params)
}

impl ScrobbleTracker {
    /// The form announcing `p` as now playing on Last.fm, when Last.fm is
    /// enabled with a key, a secret and a session key.
    pub fn now_playing_form(&self, p: &PlayedTrack) -> (r: Option<Vec<(String, String)>>)
        ensures
            form_opt(r) == lastfm_form(self.lastfm, "track.updateNowPlaying"@, p@, None),
    {
        build_lastfm_form(&self.lastfm, "track.updateNowPlaying", p, None)
    }

    /// The form scrobbling `p` on Last.fm at the Unix time `timestamp`.
    pub fn scrobble_form(&self, p: &PlayedTrack, timestamp: &str) -> (r: Option<Vec<(String, String)>>)
        ensures
            form_opt(r) == lastfm_form(self.lastfm, "track.scrobble"@, p@, Some(timestamp@)),
    {
        build_lastfm_form(&self.lastfm, "track.scrobble", p, Some(timestamp))
    }

    /// The `Authorization` header of a ListenBrainz submission, when
    /// ListenBrainz is enabled with a user token.
    pub fn listenbrainz_auth(&self) -> (r: Option<String>)
        ensures
            match (self.listenbrainz.enabled, self.listenbrainz.user_token) {
                (true, Some(t)) => r matches Some(h) && h@ == "Token "@ + t@,
                _ => r is None,
            },
    {
        if !self.listenbrainz.enabled {
            return None;
        }
        match &self.listenbrainz.user_token {
            Some(t) => {
                let mut out: Vec<char> = Vec::new();
                crate::text::push_str(&mut out, "Token ");
                crate::text::push_str(&mut out, t.as_str());
                Some(crate::text::string_from_vec(out))
            },
            None => None,
        }
    }
}

// ---------------------------------------------------------------------------
// The ListenBrainz submission
// ---------------------------------------------------------------------------

/// `v` is the JSON string `t`.
pub open spec fn json_text_is(v: JsonValue, t: Seq<char>) -> bool {
    v matches JsonValue::Str(x) && x@ == t
}

/// `v` is the JSON integer `n`.
pub open spec fn json_int_is(v: JsonValue, n: i64) -> bool {
    if n >= 0 {
        v == JsonValue::Number(JsonNumber::PosInt(n as u64))
    } else {
        v == JsonValue::Number(JsonNumber::NegInt(n))
    }
}

/// `v` is the ListenBrainz submission of a single listen of `p` at the Unix
/// time `at`, its members in key order:
/// `{"listen_type": "single", "payload": [{"listened_at": at,
/// "track_metadata": {"artist_name": .., "release_name": album or "",
/// "track_name": ..}}]}`.
pub open spec fn is_listen_payload(v: JsonValue, p: PlayedView, at: i64) -> bool {
    &&& v matches JsonValue::Object(top)
    &&& top@.len() == 2
    &&& top@[0].0@ == "listen_type"@ && json_text_is(top@[0].1, "single"@)
    &&& top@[1].0@ == "payload"@
    &&& top@[1].1 matches JsonValue::Array(items)
    &&& items@.len() == 1
    &&& items@[0] matches JsonValue::Object(listen)
    &&& listen@.len() == 2
    &&& listen@[0].0@ == "listened_at"@ && json_int_is(listen@[0].1, at)
    &&& listen@[1].0@ == "track_metadata"@
    &&& listen@[1].1 matches JsonValue::Object(md)
    &&& md@.len() == 3
    &&& md@[0].0@ == "artist_name"@ && json_text_is(md@[0].1, p.artist)
    &&& md@[1].0@ == "release_name"@ && json_text_is(
        md@[1].1,
        match p.album {
            Some(a) => a,
            None => Seq::empty(),
        },
    )
    &&& md@[2].0@ == "track_name"@ && json_text_is(md@[2].1, p.title)
}

/// The JSON text value of `s`.
fn json_text(s: &str) -> (r: JsonValue)
    ensures
        json_text_is(r, s@),
{
    JsonValue::Str(crate::text::to_string(s))
}

/// The ListenBrainz submission of one listen of `p` at the Unix time `listened_at`.
pub fn listenbrainz_payload(p: &PlayedTrack, listened_at: i64) -> (r: JsonValue)
    ensures
        is_listen_payload(r, p@, listened_at),
{
    let mut md: Vec<(String, JsonValue)> = Vec::new();
    md.push((crate::text::to_string("artist_name"), json_text(p.artist.as_str())));
    let album = match &p.album {
        Some(a) => json_text(a.as_str()),
        None => JsonValue::Str(String::new()),
    };
    md.push((crate::text::to_string("release_name"), album));
    md.push((crate::text::to_string("track_name"), json_text(p.title.as_str())));
    let at = if listened_at >= 0 {
        JsonValue::Number(JsonNumber::PosInt(listened_at as u64))
    } else {
        JsonValue::Number(JsonNumber::NegInt(listened_at))
    };
    let mut listen: Vec<(String, JsonValue)> = Vec::new();
    listen.push((crate::text::to_string("listened_at"), at));
    listen.push((crate::text::to_string("track_metadata"), JsonValue::Object(md)));
    let mut items: Vec<JsonValue> = Vec::new();
    items.push(JsonValue::Object(listen));
    let mut top: Vec<(String, JsonValue)> = Vec::new();
    top.push((crate::text::to_string("listen_type"), json_text("single")));
    top.push((crate::text::to_string("payload"), JsonValue::Array(items)));
    let r = JsonValue::Object(top);
    r
}

// ---------------------------------------------------------------------------
// Laws
// ---------------------------------------------------------------------------

/// The keys of a form are in strictly increasing order, as a sorted map is walked.
pub open spec fn keys_increasing(m: Seq<(Seq<char>, Seq<char>)>) -> bool {
    forall|i: int, j: int| 0 <= i < j < m.len() ==> text_lt((#[trigger] m[i]).0, (#[trigger] m[j]).0)
}

/// Setting a key keeps the keys increasing; afterwards the key holds the new
/// value and every other key what it held.
pub proof fn lemma_kv_insert(m: Seq<(Seq<char>, Seq<char>)>, k: Seq<char>, v: Seq<char>)
    requires
        keys_increasing(m),
    ensures
        keys_increasing(kv_insert(m, k, v)),
        kv_insert(m, k, v).contains((k, v)),
        forall|p: (Seq<char>, Seq<char>)|
            p.0 != k ==> (#[trigger] kv_insert(m, k, v).contains(p) <==> m.contains(p)),
{
    lemma_first_where(m, key_not_before(k), 0);
    let u = kv_insert(m, k, v);
    match first_where(m, key_not_before(k), 0) {
        Some(i) => {
            if m[i].0 == k {
                assert forall|a: int, b: int| 0 <= a < b < u.len() implies text_lt(
                    (#[trigger] u[a]).0,
                    (#[trigger] u[b]).0,
                ) by {
                    assert(u[a].0 == m[a].0 && u[b].0 == m[b].0);
                }
                assert(u[i] == (k, v));
                assert forall|p: (Seq<char>, Seq<char>)| p.0 != k implies (#[trigger] u.contains(p)
                    <==> m.contains(p)) by {
                    if u.contains(p) {
                        let x = choose|x: int| 0 <= x < u.len() && u[x] == p;
                        assert(x != i);
                        assert(m[x] == p);
                    }
                    if m.contains(p) {
                        let x = choose|x: int| 0 <= x < m.len() && m[x] == p;
                        assert(x != i);
                        assert(u[x] == p);
                    }
                }
            } else {
                lemma_text_lt_total(m[i].0, k);
                assert(text_lt(k, m[i].0));
                assert forall|a: int, b: int| 0 <= a < b < u.len() implies text_lt(
                    (#[trigger] u[a]).0,
                    (#[trigger] u[b]).0,
                ) by {
                    if b < i {
                    } else if b == i {
                        assert(!key_not_before(k)(m[a]));
                    } else if a < i {
                        assert(!key_not_before(k)(m[a]));
                        assert(u[b] == m[b - 1]);
                        if b - 1 > i {
                            lemma_text_lt_transitive(k, m[i].0, m[b - 1].0);
                        }
                        lemma_text_lt_transitive(m[a].0, k, m[b - 1].0);
                    } else if a == i {
                        assert(u[b] == m[b - 1]);
                        if b - 1 > i {
                            lemma_text_lt_transitive(k, m[i].0, m[b - 1].0);
                        }
                    } else {
                        assert(u[a] == m[a - 1] && u[b] == m[b - 1]);
                    }
                }
                assert(u[i] == (k, v));
                assert forall|p: (Seq<char>, Seq<char>)| p.0 != k implies (#[trigger] u.contains(p)
                    <==> m.contains(p)) by {
                    if u.contains(p) {
                        let x = choose|x: int| 0 <= x < u.len() && u[x] == p;
                        if x < i {
                            assert(m[x] == p);
                        } else if x > i {
                            assert(m[x - 1] == p);
                        }
                    }
                    if m.contains(p) {
                        let x = choose|x: int| 0 <= x < m.len() && m[x] == p;
                        if x < i {
                            assert(u[x] == p);
                        } else {
                            assert(u[x + 1] == p);
                        }
                    }
                }
            }
        },
        None => {
            assert forall|a: int, b: int| 0 <= a < b < u.len() implies text_lt(
                (#[trigger] u[a]).0,
                (#[trigger] u[b]).0,
            ) by {
                if b == m.len() {
                    assert(!key_not_before(k)(m[a]));
                }
            }
            assert(u[m.len() as int] == (k, v));
            assert forall|p: (Seq<char>, Seq<char>)| p.0 != k implies (#[trigger] u.contains(p)
                <==> m.contains(p)) by {
                if u.contains(p) {
                    let x = choose|x: int| 0 <= x < u.len() && u[x] == p;
                    if x < m.len() {
                        assert(m[x] == p);
                    }
                }
                if m.contains(p) {
                    let x = choose|x: int| 0 <= x < m.len() && m[x] == p;
                    assert(u[x] == p);
                }
            }
        },
    }
}

/// Every Last.fm form lists its fields in increasing key order, signature and
/// format included, as a sorted map of fields is walked.
pub proof fn lemma_lastfm_form_sorted(
    cfg: LastFmConfig,
    method: Seq<char>,
    p: PlayedView,
    timestamp: Option<Seq<char>>,
)
    ensures
        lastfm_form(cfg, method, p, timestamp) matches Some(f) ==> keys_increasing(f),
{
    let e = Seq::<(Seq<char>, Seq<char>)>::empty();
    let m1 = kv_insert(e, "method"@, method);
    let m2 = kv_insert(m1, "api_key"@, match cfg.api_key { Some(k) => k@, None => Seq::empty() });
    let m3 = kv_insert(m2, "sk"@, match cfg.session_key { Some(k) => k@, None => Seq::empty() });
    let m4 = kv_insert(m3, "artist"@, p.artist);
    let m5 = kv_insert(m4, "track"@, p.title);
    lemma_kv_insert(e, "method"@, method);
    lemma_kv_insert(m1, "api_key"@, match cfg.api_key { Some(k) => k@, None => Seq::empty() });
    lemma_kv_insert(m2, "sk"@, match cfg.session_key { Some(k) => k@, None => Seq::empty() });
    lemma_kv_insert(m3, "artist"@, p.artist);
    lemma_kv_insert(m4, "track"@, p.title);
    let m6 = match timestamp {
        Some(t) => kv_insert(m5, "timestamp"@, t),
        None => m5,
    };
    if let Some(t) = timestamp {
        lemma_kv_insert(m5, "timestamp"@, t);
    }
    let m7 = match p.album {
        Some(a) => kv_insert(m6, "album"@, a),
        None => m6,
    };
    if let Some(a) = p.album {
        lemma_kv_insert(m6, "album"@, a);
    }
    match (cfg.api_key, cfg.api_secret, cfg.session_key) {
        (Some(k), Some(s), Some(sk)) => {
            assert(lastfm_fields(method, k@, sk@, p, timestamp) == m7);
            let sig = lastfm_signature(m7, s@);
            lemma_kv_insert(m7, "api_sig"@, sig);
            lemma_kv_insert(kv_insert(m7, "api_sig"@, sig), "format"@, "json"@);
        },
        _ => {},
    }
}

/// A track is scrobbled at most once: after a tick scrobbles it, later ticks
/// scrobble nothing until another track is reported.
pub proof fn lemma_scrobble_at_most_once(s: TrackingView, now1: u64, now2: u64)
    requires
        scrobble_tick_step(s, now1).1 is Some,
    ensures
        scrobble_tick_step(scrobble_tick_step(s, now1).0, now2).1 is None,
        scrobble_tick_step(s, now1).0.scrobbled,
{
}

/// Reporting the track that is already playing changes nothing.
pub proof fn lemma_same_track_keeps_count(s: TrackingView, t: TrackView, now: u64)
    requires
        s.current_track == Some(t),
    ensures
        track_change_step(s, t, now) == (s, None::<PlayedView>),
{
}

/// No track is scrobbled before half its length, or 4 minutes, has passed since it started.
pub proof fn lemma_no_early_scrobble(s: TrackingView, now: u64)
    requires
        s.start_secs matches Some(start) && s.current_track matches Some(t) && elapsed(start, now)
            < threshold_of(t),
    ensures
        scrobble_tick_step(s, now).1 is None,
{
}

/// A track with an artist and a title that has not been scrobbled yet is
/// scrobbled by the first tick once 4 minutes have passed since it started.
pub proof fn lemma_scrobbled_by_four_minutes(s: TrackingView, now: u64)
    requires
        !s.scrobbled,
        s.start_secs matches Some(start) && elapsed(start, now) >= SCROBBLE_THRESHOLD_SECS,
        s.current_track matches Some(t) && played_of(t) is Some,
    ensures
        scrobble_tick_step(s, now).1 == played_of(s.current_track.unwrap()),
        scrobble_tick_step(s, now).0.scrobbled,
{
}

} // verus!
