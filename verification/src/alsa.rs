//! ALSA inspection: the sound cards listed in `/proc/asound/cards`, the
//! active hardware parameters of a playback substream, and the capability
//! matrix a USB DAC declares in its `stream0` descriptor.

use vstd::prelude::*;
use std::collections::BTreeSet;
use crate::seq_search::{
    first_where, in_order, lemma_first_where, lemma_first_where_at, lemma_first_where_none, lemma_in_order,
    ordered_by,
};
use crate::text::{
    chars_eq, chars_of, contains_exec, contains_seq, first_word, first_word_exec, line_ranges,
    lines, parse_u32_str, parse_uint, parse_uint_range, split_char, split_char_exec, split_once,
    split_once_exec, starts_with, starts_with_exec, strip_all_prefix, strip_all_prefix_exec,
    string_from_chars, sub_vec, text_less, text_lt, trim, trim_vec, lemma_text_lt_irreflexive,
    lemma_text_lt_total, lemma_text_lt_transitive, lemma_lines_append, lemma_lines_single, occurs_at,
    trim_end, trim_start,
};

verus! {

broadcast use vstd::laws_cmp::group_laws_cmp;

// ---------------------------------------------------------------------------
// Types
// ---------------------------------------------------------------------------

/// Information about a detected ALSA sound card.
#[derive(Debug, Clone)]
pub struct AlsaCard {
    pub index: u32,
    pub id: String,
    pub name: String,
    pub is_usb: bool,
}

/// The model of an [`AlsaCard`].
pub struct CardView {
    pub index: u32,
    pub id: Seq<char>,
    pub name: Seq<char>,
    pub is_usb: bool,
}

impl View for AlsaCard {
    type V = CardView;

    open spec fn view(&self) -> CardView {
        CardView { index: self.index, id: self.id@, name: self.name@, is_usb: self.is_usb }
    }
}

/// Active hardware parameters read from `/proc/asound/card<X>/pcm0p/sub0/hw_params`.
#[derive(Debug, Clone)]
pub struct AlsaHwParams {
    pub is_active: bool,
    pub access: Option<String>,
    pub format: Option<String>,
    pub channels: Option<u32>,
    pub rate: Option<u32>,
    pub period_size: Option<u32>,
    pub buffer_size: Option<u32>,
}

/// The model of [`AlsaHwParams`].
pub struct HwView {
    pub is_active: bool,
    pub access: Option<Seq<char>>,
    pub format: Option<Seq<char>>,
    pub channels: Option<u32>,
    pub rate: Option<u32>,
    pub period_size: Option<u32>,
    pub buffer_size: Option<u32>,
}

/// The view of an optional text.
pub open spec fn text_opt(o: Option<String>) -> Option<Seq<char>> {
    match o {
        Some(s) => Some(s@),
        None => None,
    }
}

impl View for AlsaHwParams {
    type V = HwView;

    open spec fn view(&self) -> HwView {
        HwView {
            is_active: self.is_active,
            access: text_opt(self.access),
            format: text_opt(self.format),
            channels: self.channels,
            rate: self.rate,
            period_size: self.period_size,
            buffer_size: self.buffer_size,
        }
    }
}

/// Parameters with nothing known and the given activity.
pub open spec fn hw_blank(active: bool) -> HwView {
    HwView {
        is_active: active,
        access: None,
        format: None,
        channels: None,
        rate: None,
        period_size: None,
        buffer_size: None,
    }
}

impl AlsaHwParams {
    /// Parameters with nothing known and the given activity.
    pub fn blank(active: bool) -> (r: AlsaHwParams)
        ensures
            r@ == hw_blank(active),
    {
        AlsaHwParams {
            is_active: active,
            access: None,
            format: None,
            channels: None,
            rate: None,
            period_size: None,
            buffer_size: None,
        }
    }
}

impl Default for AlsaHwParams {
    fn default() -> (r: AlsaHwParams)
        ensures
            r@ == hw_blank(false),
    {
        AlsaHwParams::blank(false)
    }
}

// ---------------------------------------------------------------------------
// hw_params
// ---------------------------------------------------------------------------

/// The `u32` that `s` reads as (`str::parse::<u32>().ok()`).
pub open spec fn u32_of(s: Seq<char>) -> Option<u32> {
    match parse_uint(s, u32::MAX as int) {
        Some(v) => Some(v as u32),
        None => None,
    }
}

/// The `u8` that `s` reads as (`str::parse::<u8>().ok()`).
pub open spec fn u8_of(s: Seq<char>) -> Option<u8> {
    match parse_uint(s, u8::MAX as int) {
        Some(v) => Some(v as u8),
        None => None,
    }
}

/// The rate field of a `rate` line: its first word, or the whole value
/// when it has none ("44100 (44100/1)" gives 44100).
pub open spec fn rate_field(val: Seq<char>) -> Option<u32> {
    match first_word(val) {
        Some(w) => u32_of(w),
        None => u32_of(val),
    }
}

/// What one `key: value` line of `hw_params` sets.
pub open spec fn hw_line(p: HwView, line: Seq<char>) -> HwView {
    match split_once(line, seq![':']) {
        None => p,
        Some((k, v)) => {
            let key = trim(k);
            let val = trim(v);
            if key == "access"@ {
                HwView { access: Some(val), ..p }
            } else if key == "format"@ {
                HwView { format: Some(val), ..p }
            } else if key == "channels"@ {
                HwView { channels: u32_of(val), ..p }
            } else if key == "rate"@ {
                HwView { rate: rate_field(val), ..p }
            } else if key == "period_size"@ {
                HwView { period_size: u32_of(val), ..p }
            } else if key == "buffer_size"@ {
                HwView { buffer_size: u32_of(val), ..p }
            } else {
                p
            }
        },
    }
}

/// The parameters after reading the lines `ls` in order, starting active with nothing known.
pub open spec fn hw_lines(ls: Seq<Seq<char>>) -> HwView
    decreases ls.len(),
{
    if ls.len() == 0 {
        hw_blank(true)
    } else {
        hw_line(hw_lines(ls.drop_last()), ls.last())
    }
}

/// The parameters `parse_hw_params_content` reads from `content`.
pub open spec fn hw_params_of(content: Seq<char>) -> HwView {
    hw_lines(lines(content))
}

/// Whether the characters `s` spell the text `lit`.
fn is_text(s: &[char], lit: &str) -> (r: bool)
    ensures
        r == (s@ == lit@),
{
    let l = chars_of(lit);
    chars_eq(s, l.as_slice())
}

/// The `u32` the characters `s` read as.
fn u32_of_exec(s: &[char]) -> (r: Option<u32>)
    ensures
        r == u32_of(s@),
{
    let r = parse_u32_str(s, 0, s.len());
    assert(s@.subrange(0, s@.len() as int) =~= s@);
    r
}

/// The `u8` the characters `s` read as.
fn u8_of_exec(s: &[char]) -> (r: Option<u8>)
    ensures
        r == u8_of(s@),
{
    assert(s@.subrange(0, s@.len() as int) =~= s@);
    match parse_uint_range(s, 0, s.len(), 255) {
        Some(v) => Some(v as u8),
        None => None,
    }
}

/// Apply one line of `hw_params` to `p`.
fn apply_hw_line(p: &mut AlsaHwParams, line: &[char])
    ensures
        final(p)@ == hw_line(old(p)@, line@),
{
    let colon: [char; 1] = [':'];
    assert(colon@ =~= seq![':']);
    match split_once_exec(line, colon.as_slice()) {
        None => {},
        Some((k, v)) => {
            let key = trim_vec(k.as_slice());
            let val = trim_vec(v.as_slice());
            if is_text(key.as_slice(), "access") {
                p.access = Some(string_from_chars(val.as_slice()));
            } else if is_text(key.as_slice(), "format") {
                p.format = Some(string_from_chars(val.as_slice()));
            } else if is_text(key.as_slice(), "channels") {
                p.channels = u32_of_exec(val.as_slice());
            } else if is_text(key.as_slice(), "rate") {
                p.rate = match first_word_exec(val.as_slice()) {
                    Some(w) => u32_of_exec(w.as_slice()),
                    None => u32_of_exec(val.as_slice()),
                };
            } else if is_text(key.as_slice(), "period_size") {
                p.period_size = u32_of_exec(val.as_slice());
            } else if is_text(key.as_slice(), "buffer_size") {
                p.buffer_size = u32_of_exec(val.as_slice());
            }
        },
    }
}

/// Parses the contents of `/proc/asound/card<X>/pcm<Y>p/sub0/hw_params`.
pub fn parse_hw_params_content(content: &str) -> (r: AlsaHwParams)
    ensures
        r@ == hw_params_of(content@),
{
    let s = chars_of(content);
    let rs = line_ranges(s.as_slice());
    let ghost ls = lines(s@);
    let mut params = AlsaHwParams::blank(true);
    let mut i: usize = 0;
    assert(ls.subrange(0, 0) =~= Seq::<Seq<char>>::empty());
    while i < rs.len()
        invariant
            s@ == content@,
            ls == lines(s@),
            rs@.len() == ls.len(),
            forall|j: int|
                0 <= j < rs@.len() ==> {
                    &&& (#[trigger] rs@[j]).0 <= rs@[j].1 <= s@.len()
                    &&& s@.subrange(rs@[j].0 as int, rs@[j].1 as int) == ls[j]
                },
            i <= rs@.len(),
            params@ == hw_lines(ls.subrange(0, i as int)),
        decreases rs@.len() - i,
    {
        let (lo, hi) = rs[i];
        let line = sub_vec(s.as_slice(), lo, hi);
        apply_hw_line(&mut params, line.as_slice());
        proof {
            let nx = ls.subrange(0, i + 1);
            assert(nx.drop_last() =~= ls.subrange(0, i as int));
            assert(nx.last() == ls[i as int]);
        }
        i = i + 1;
    }
    assert(ls.subrange(0, i as int) =~= ls);
    params
}

// ---------------------------------------------------------------------------
// stream0
// ---------------------------------------------------------------------------

/// Supported audio capability profile parsed from `/proc/asound/card<X>/stream0`.
///
/// The formats are kept in increasing text order with no repeats, the order
/// in which a sorted set of texts is walked.
#[derive(Debug, Clone)]
pub struct DacCapabilities {
    pub card_name: String,
    pub status: String,
    pub momentary_freq_hz: Option<u32>,
    pub supported_rates: BTreeSet<u32>,
    pub supported_bit_depths: BTreeSet<u8>,
    pub supported_formats: Vec<String>,
}

/// The model of [`DacCapabilities`].
pub struct CapsView {
    pub card_name: Seq<char>,
    pub status: Seq<char>,
    pub momentary_freq_hz: Option<u32>,
    pub supported_rates: Set<u32>,
    pub supported_bit_depths: Set<u8>,
    pub supported_formats: Seq<Seq<char>>,
}

impl View for DacCapabilities {
    type V = CapsView;

    open spec fn view(&self) -> CapsView {
        CapsView {
            card_name: self.card_name@,
            status: self.status@,
            momentary_freq_hz: self.momentary_freq_hz,
            supported_rates: self.supported_rates@,
            supported_bit_depths: self.supported_bit_depths@,
            supported_formats: texts(self.supported_formats@),
        }
    }
}

/// The views of a list of strings.
pub open spec fn texts(v: Seq<String>) -> Seq<Seq<char>> {
    v.map_values(|s: String| s@)
}

/// Capabilities with nothing known.
pub open spec fn caps_empty() -> CapsView {
    CapsView {
        card_name: Seq::empty(),
        status: Seq::empty(),
        momentary_freq_hz: None,
        supported_rates: Set::empty(),
        supported_bit_depths: Set::empty(),
        supported_formats: Seq::empty(),
    }
}

impl Default for DacCapabilities {
    fn default() -> (r: DacCapabilities)
        ensures
            r@ == caps_empty(),
    {
        let r = DacCapabilities {
            card_name: String::new(),
            status: String::new(),
            momentary_freq_hz: None,
            supported_rates: BTreeSet::new(),
            supported_bit_depths: BTreeSet::new(),
            supported_formats: Vec::new(),
        };
        assert(r@.supported_formats =~= Seq::<Seq<char>>::empty());
        r
    }
}

/// The texts that do not come before `x`.
pub open spec fn not_before(x: Seq<char>) -> spec_fn(Seq<char>) -> bool {
    |e: Seq<char>| !text_lt(e, x)
}

/// `x` added to the increasing list of texts `s` at its place, unless it is there already
/// (`BTreeSet::insert` on texts).
pub open spec fn sorted_insert(s: Seq<Seq<char>>, x: Seq<char>) -> Seq<Seq<char>> {
    match first_where(s, not_before(x), 0) {
        Some(k) => if s[k] == x {
            s
        } else {
            s.insert(k, x)
        },
        None => s.push(x),
    }
}

/// The bit depth a format name announces: 24, 16 or 32, looked for in that order.
pub open spec fn format_depth(fmt: Seq<char>) -> Option<u8> {
    if contains_seq(fmt, "24"@) || contains_seq(fmt, "S24"@) {
        Some(24)
    } else if contains_seq(fmt, "16"@) || contains_seq(fmt, "S16"@) {
        Some(16)
    } else if contains_seq(fmt, "32"@) || contains_seq(fmt, "S32"@) {
        Some(32)
    } else {
        None
    }
}

/// `s` with `o` added when there is one.
pub open spec fn add_opt<T>(s: Set<T>, o: Option<T>) -> Set<T> {
    match o {
        Some(v) => s.insert(v),
        None => s,
    }
}

/// The rates read from the comma-separated pieces `ps`, each trimmed.
pub open spec fn rates_in(ps: Seq<Seq<char>>) -> Set<u32>
    decreases ps.len(),
{
    if ps.len() == 0 {
        Set::empty()
    } else {
        add_opt(rates_in(ps.drop_last()), u32_of(trim(ps.last())))
    }
}

/// The word after `Momentary freq =`, or the empty text.
pub open spec fn freq_word(t: Seq<char>) -> Seq<char> {
    match first_word(t.subrange("Momentary freq ="@.len() as int, t.len() as int)) {
        Some(w) => w,
        None => Seq::empty(),
    }
}

/// The reading state of a `stream0` descriptor: the capabilities so far and
/// whether the lines belong to the `Playback:` section.
pub struct Stream0State {
    pub caps: CapsView,
    pub in_playback: bool,
}

/// What one line of a `stream0` descriptor changes.
pub open spec fn stream0_line(st: Stream0State, line: Seq<char>) -> Stream0State {
    let t = trim(line);
    let c = st.caps;
    if c.card_name.len() == 0 && contains_seq(t, "at usb-"@) {
        Stream0State { caps: CapsView { card_name: t, ..c }, ..st }
    } else if starts_with(t, "Playback:"@) {
        Stream0State { in_playback: true, ..st }
    } else if starts_with(t, "Capture:"@) {
        Stream0State { in_playback: false, ..st }
    } else if !st.in_playback {
        st
    } else if starts_with(t, "Status:"@) {
        Stream0State { caps: CapsView { status: trim(strip_all_prefix(t, "Status:"@)), ..c }, ..st }
    } else if starts_with(t, "Momentary freq ="@) {
        match u32_of(freq_word(t)) {
            Some(hz) => Stream0State { caps: CapsView { momentary_freq_hz: Some(hz), ..c }, ..st },
            None => st,
        }
    } else if starts_with(t, "Format:"@) {
        let fmt = trim(strip_all_prefix(t, "Format:"@));
        Stream0State {
            caps: CapsView {
                supported_formats: sorted_insert(c.supported_formats, fmt),
                supported_bit_depths: add_opt(c.supported_bit_depths, format_depth(fmt)),
                ..c
            },
            ..st
        }
    } else if starts_with(t, "Bits:"@) {
        Stream0State {
            caps: CapsView {
                supported_bit_depths: add_opt(
                    c.supported_bit_depths,
                    u8_of(trim(strip_all_prefix(t, "Bits:"@))),
                ),
                ..c
            },
            ..st
        }
    } else if starts_with(t, "Rates:"@) {
        Stream0State {
            caps: CapsView {
                supported_rates: c.supported_rates.union(
                    rates_in(split_char(trim(strip_all_prefix(t, "Rates:"@)), ',')),
                ),
                ..c
            },
            ..st
        }
    } else {
        st
    }
}

/// The state after reading the lines `ls` in order.
pub open spec fn stream0_lines(ls: Seq<Seq<char>>) -> Stream0State
    decreases ls.len(),
{
    if ls.len() == 0 {
        Stream0State { caps: caps_empty(), in_playback: false }
    } else {
        stream0_line(stream0_lines(ls.drop_last()), ls.last())
    }
}

/// The capabilities `parse_stream0_content` reads from `content`.
pub open spec fn stream0_of(content: Seq<char>) -> CapsView {
    stream0_lines(lines(content)).caps
}

/// The first index of `v` whose text does not come before `x`.
fn first_not_before(v: &Vec<String>, x: &[char]) -> (r: Option<usize>)
    ensures
        match r {
            Some(k) => k < v@.len() && first_where(texts(v@), not_before(x@), 0) == Some(k as int),
            None => first_where(texts(v@), not_before(x@), 0) is None,
        },
{
    let ghost vs = texts(v@);
    let ghost p = not_before(x@);
    proof {
        lemma_first_where(vs, p, 0);
    }
    let mut k: usize = 0;
    while k < v.len()
        invariant
            k <= v@.len(),
            vs == texts(v@),
            p == not_before(x@),
            forall|j: int| 0 <= j < k ==> !p(vs[j]),
            match first_where(vs, p, 0) {
                Some(i) => 0 <= i < vs.len() && p(vs[i]) && forall|j: int| 0 <= j < i ==> !p(vs[j]),
                None => forall|j: int| 0 <= j < vs.len() ==> !p(vs[j]),
            },
        decreases v@.len() - k,
    {
        let e = chars_of(v[k].as_str());
        if !text_less(e.as_slice(), x) {
            proof {
                assert(p(vs[k as int]));
                match first_where(vs, p, 0) {
                    Some(i) => {
                        if i < k {
                            assert(!p(vs[i]));
                        }
                        if i > k {
                            assert(!p(vs[k as int]));
                        }
                    },
                    None => {
                        assert(!p(vs[k as int]));
                    },
                }
            }
            return Some(k);
        }
        k = k + 1;
    }
    proof {
        match first_where(vs, p, 0) {
            Some(i) => {
                assert(!p(vs[i]));
            },
            None => {},
        }
    }
    None
}

/// Add the format `x` to the increasing list `v` (`BTreeSet::insert` on texts).
fn insert_format(v: &mut Vec<String>, x: &[char])
    ensures
        texts(final(v)@) == sorted_insert(
            texts(old(v)@),
            x@,
        ),
{
    let pos = first_not_before(v, x);
    match pos {
        Some(k) => {
            let e = chars_of(v[k].as_str());
            assert(texts(old(v)@)[k as int] == e@);
            if !chars_eq(e.as_slice(), x) {
                v.insert(k, string_from_chars(x));
                assert(texts(v@) =~= texts(old(v)@).insert(
                    k as int,
                    x@,
                ));
            } else {
                assert(sorted_insert(texts(old(v)@), x@) == texts(old(v)@));
            }
        },
        None => {
            v.push(string_from_chars(x));
            assert(texts(v@) =~= texts(old(v)@).push(x@));
        },
    }
}

/// Add `o` to `s` when there is one.
fn add_opt_u8(s: &mut BTreeSet<u8>, o: Option<u8>)
    ensures
        final(s)@ == add_opt(old(s)@, o),
{
    if let Some(v) = o {
        s.insert(v);
    }
}

/// The bit depth a format name announces.
fn format_depth_exec(fmt: &[char]) -> (r: Option<u8>)
    ensures
        r == format_depth(fmt@),
{
    let d24 = chars_of("24");
    let s24 = chars_of("S24");
    let d16 = chars_of("16");
    let s16 = chars_of("S16");
    let d32 = chars_of("32");
    let s32 = chars_of("S32");
    if contains_exec(fmt, d24.as_slice()) || contains_exec(fmt, s24.as_slice()) {
        Some(24)
    } else if contains_exec(fmt, d16.as_slice()) || contains_exec(fmt, s16.as_slice()) {
        Some(16)
    } else if contains_exec(fmt, d32.as_slice()) || contains_exec(fmt, s32.as_slice()) {
        Some(32)
    } else {
        None
    }
}

/// Add every rate of the comma-separated list `list` to `rates`.
fn add_rates(rates: &mut BTreeSet<u32>, list: &[char])
    ensures
        final(rates)@ == old(rates)@.union(rates_in(split_char(list@, ','))),
{
    let ps = split_char_exec(list, ',');
    let ghost pv = ps@.map_values(|v: Vec<char>| v@);
    let mut i: usize = 0;
    assert(pv.subrange(0, 0) =~= Seq::<Seq<char>>::empty());
    assert(old(rates)@.union(Set::<u32>::empty()) =~= old(rates)@);
    while i < ps.len()
        invariant
            pv == ps@.map_values(|v: Vec<char>| v@),
            pv == split_char(list@, ','),
            i <= ps@.len(),
            rates@ == old(rates)@.union(rates_in(pv.subrange(0, i as int))),
        decreases ps@.len() - i,
    {
        let piece = trim_vec(ps[i].as_slice());
        let r = u32_of_exec(piece.as_slice());
        if let Some(v) = r {
            rates.insert(v);
        }
        proof {
            let nx = pv.subrange(0, i + 1);
            assert(nx.drop_last() =~= pv.subrange(0, i as int));
            assert(nx.last() == pv[i as int]);
            assert(rates@ =~= old(rates)@.union(rates_in(nx)));
        }
        i = i + 1;
    }
    assert(pv.subrange(0, i as int) =~= pv);
}

/// Whether `t` starts with the text `lit`.
fn begins(t: &[char], lit: &str) -> (r: bool)
    ensures
        r == starts_with(t@, lit@),
{
    let l = chars_of(lit);
    starts_with_exec(t, l.as_slice())
}

/// The text `t` after every leading `lit`, trimmed.
fn field_after(t: &[char], lit: &str) -> (r: Vec<char>)
    ensures
        r@ == trim(strip_all_prefix(t@, lit@)),
{
    let l = chars_of(lit);
    let rest = strip_all_prefix_exec(t, l.as_slice());
    trim_vec(rest.as_slice())
}

/// Apply one line of a `stream0` descriptor.
fn apply_stream0_line(caps: &mut DacCapabilities, in_playback: &mut bool, line: &[char])
    ensures
        (Stream0State { caps: final(caps)@, in_playback: *final(in_playback) }) == stream0_line(
            Stream0State { caps: old(caps)@, in_playback: *old(in_playback) },
            line@,
        ),
{
    let t = trim_vec(line);
    let usb = chars_of("at usb-");
    let name_now = chars_of(caps.card_name.as_str());
    if name_now.len() == 0 && contains_exec(t.as_slice(), usb.as_slice()) {
        caps.card_name = string_from_chars(t.as_slice());
        return;
    }
    if begins(t.as_slice(), "Playback:") {
        *in_playback = true;
        return;
    }
    if begins(t.as_slice(), "Capture:") {
        *in_playback = false;
        return;
    }
    if !*in_playback {
        return;
    }
    if begins(t.as_slice(), "Status:") {
        let st = field_after(t.as_slice(), "Status:");
        caps.status = string_from_chars(st.as_slice());
    } else if begins(t.as_slice(), "Momentary freq =") {
        let pre = chars_of("Momentary freq =");
        let rest = sub_vec(t.as_slice(), pre.len(), t.len());
        let w = match first_word_exec(rest.as_slice()) {
            Some(w) => w,
            None => Vec::new(),
        };
        proof {
            assert(w@ == freq_word(t@));
        }
        if let Some(hz) = u32_of_exec(w.as_slice()) {
            caps.momentary_freq_hz = Some(hz);
        }
    } else if begins(t.as_slice(), "Format:") {
        let fmt = field_after(t.as_slice(), "Format:");
        insert_format(&mut caps.supported_formats, fmt.as_slice());
        let d = format_depth_exec(fmt.as_slice());
        add_opt_u8(&mut caps.supported_bit_depths, d);
    } else if begins(t.as_slice(), "Bits:") {
        let b = field_after(t.as_slice(), "Bits:");
        let d = u8_of_exec(b.as_slice());
        add_opt_u8(&mut caps.supported_bit_depths, d);
    } else if begins(t.as_slice(), "Rates:") {
        let list = field_after(t.as_slice(), "Rates:");
        add_rates(&mut caps.supported_rates, list.as_slice());
    }
}

/// Parses USB audio descriptor from `/proc/asound/card<X>/stream0`.
pub fn parse_stream0_content(content: &str) -> (r: DacCapabilities)
    ensures
        r@ == stream0_of(content@),
{
    let s = chars_of(content);
    let rs = line_ranges(s.as_slice());
    let ghost ls = lines(s@);
    let mut caps = DacCapabilities::default();
    let mut in_playback = false;
    let mut i: usize = 0;
    assert(ls.subrange(0, 0) =~= Seq::<Seq<char>>::empty());
    while i < rs.len()
        invariant
            s@ == content@,
            ls == lines(s@),
            rs@.len() == ls.len(),
            forall|j: int|
                0 <= j < rs@.len() ==> {
                    &&& (#[trigger] rs@[j]).0 <= rs@[j].1 <= s@.len()
                    &&& s@.subrange(rs@[j].0 as int, rs@[j].1 as int) == ls[j]
                },
            i <= rs@.len(),
            (Stream0State { caps: caps@, in_playback: in_playback }) == stream0_lines(
                ls.subrange(0, i as int),
            ),
        decreases rs@.len() - i,
    {
        let (lo, hi) = rs[i];
        let line = sub_vec(s.as_slice(), lo, hi);
        apply_stream0_line(&mut caps, &mut in_playback, line.as_slice());
        proof {
            let nx = ls.subrange(0, i + 1);
            assert(nx.drop_last() =~= ls.subrange(0, i as int));
            assert(nx.last() == ls[i as int]);
        }
        i = i + 1;
    }
    assert(ls.subrange(0, i as int) =~= ls);
    caps
}

// ---------------------------------------------------------------------------
// The card list
// ---------------------------------------------------------------------------

/// The index, id and description of a card's first line
/// (` 1 [DSP            ]: USB-Audio - Chu2 DSP`), when it has that shape.
pub open spec fn card_head(line: Seq<char>) -> Option<(u32, Seq<char>, Seq<char>)> {
    match split_once(line, seq!['[']) {
        Some((idx, rest)) => match u32_of(trim(idx)) {
            Some(index) => match split_once(rest, seq![']']) {
                Some((id, desc)) => Some((index, trim(id), trim(strip_all_prefix(desc, ":"@)))),
                None => None,
            },
            None => None,
        },
        None => None,
    }
}

/// The text starts with an ASCII digit.
pub open spec fn starts_with_digit(s: Seq<char>) -> bool {
    s.len() > 0 && '0' <= s[0] && s[0] <= '9'
}

/// The line after a card's first line continues it: it exists and does not
/// start with a digit once trimmed.
pub open spec fn continues(ls: Seq<Seq<char>>, i: int) -> bool {
    i + 1 < ls.len() && !starts_with_digit(trim(ls[i + 1]))
}

/// A card's name: its description, with a non-empty continuation line in brackets.
pub open spec fn card_name(desc: Seq<char>, ls: Seq<Seq<char>>, i: int) -> Seq<char> {
    if continues(ls, i) && trim(ls[i + 1]).len() > 0 {
        desc + " ("@ + trim(ls[i + 1]) + ")"@
    } else {
        desc
    }
}

/// The cards listed from line `i` of `/proc/asound/cards` on.
pub open spec fn cards_from(ls: Seq<Seq<char>>, i: nat) -> Seq<CardView>
    decreases ls.len() - i,
{
    if i >= ls.len() {
        Seq::empty()
    } else {
        match card_head(trim(ls[i as int])) {
            None => cards_from(ls, i + 1),
            Some((index, id, desc)) => {
                let card = CardView {
                    index: index,
                    id: id,
                    name: card_name(desc, ls, i as int),
                    is_usb: contains_seq(desc, "USB"@) || contains_seq(id, "DSP"@),
                };
                seq![card] + cards_from(
                    ls,
                    if continues(ls, i as int) {
                        i + 2
                    } else {
                        i + 1
                    },
                )
            },
        }
    }
}

/// The cards `parse_alsa_cards_content` reads from `content`.
pub open spec fn cards_of(content: Seq<char>) -> Seq<CardView> {
    cards_from(lines(content), 0)
}

/// The views of a list of cards.
pub open spec fn card_views(v: Seq<AlsaCard>) -> Seq<CardView> {
    v.map_values(|c: AlsaCard| c@)
}

/// The head of a card line, as owned values.
fn card_head_exec(line: &[char]) -> (r: Option<(u32, Vec<char>, Vec<char>)>)
    ensures
        match card_head(line@) {
            Some((index, id, desc)) => r matches Some((i2, id2, d2)) && i2 == index && id2@ == id
                && d2@ == desc,
            None => r is None,
        },
{
    let open: [char; 1] = ['['];
    let close: [char; 1] = [']'];
    assert(open@ =~= seq!['[']);
    assert(close@ =~= seq![']']);
    match split_once_exec(line, open.as_slice()) {
        None => None,
        Some((idx, rest)) => {
            let idx_t = trim_vec(idx.as_slice());
            match u32_of_exec(idx_t.as_slice()) {
                None => None,
                Some(index) => match split_once_exec(rest.as_slice(), close.as_slice()) {
                    None => None,
                    Some((id, desc)) => {
                        let id_t = trim_vec(id.as_slice());
                        let colon = chars_of(":");
                        let d = strip_all_prefix_exec(desc.as_slice(), colon.as_slice());
                        let d_t = trim_vec(d.as_slice());
                        Some((index, id_t, d_t))
                    },
                },
            }
        },
    }
}

/// Whether the characters start with an ASCII digit.
fn starts_with_digit_exec(s: &[char]) -> (r: bool)
    ensures
        r == starts_with_digit(s@),
{
    s.len() > 0 && '0' <= s[0] && s[0] <= '9'
}

/// Parses the contents of `/proc/asound/cards` into the list of sound cards.
pub fn parse_alsa_cards_content(content: &str) -> (r: Vec<AlsaCard>)
    ensures
        card_views(r@) == cards_of(content@),
{
    let s = chars_of(content);
    let rs = line_ranges(s.as_slice());
    let ghost ls = lines(s@);
    let mut lv: Vec<Vec<char>> = Vec::new();
    let mut k: usize = 0;
    while k < rs.len()
        invariant
            ls == lines(s@),
            rs@.len() == ls.len(),
            forall|j: int|
                0 <= j < rs@.len() ==> {
                    &&& (#[trigger] rs@[j]).0 <= rs@[j].1 <= s@.len()
                    &&& s@.subrange(rs@[j].0 as int, rs@[j].1 as int) == ls[j]
                },
            k <= rs@.len(),
            lv@.len() == k,
            forall|j: int| 0 <= j < k ==> (#[trigger] lv@[j])@ == ls[j],
        decreases rs@.len() - k,
    {
        let (lo, hi) = rs[k];
        lv.push(sub_vec(s.as_slice(), lo, hi));
        k = k + 1;
    }
    let n = lv.len();
    let mut cards: Vec<AlsaCard> = Vec::new();
    let mut i: usize = 0;
    assert(cards_of(content@) =~= card_views(cards@) + cards_from(ls, 0));
    while i < n
        invariant
            s@ == content@,
            ls == lines(s@),
            n == lv@.len(),
            n == ls.len(),
            forall|j: int| 0 <= j < n ==> (#[trigger] lv@[j])@ == ls[j],
            i <= n,
            cards_of(content@) == card_views(cards@) + cards_from(ls, i as nat),
        decreases n - i,
    {
        let line = trim_vec(lv[i].as_slice());
        match card_head_exec(line.as_slice()) {
            None => {
                i = i + 1;
            },
            Some((index, id, desc)) => {
                let is_usb = contains_exec(desc.as_slice(), chars_of("USB").as_slice())
                    || contains_exec(id.as_slice(), chars_of("DSP").as_slice());
                let mut name = desc;
                let mut next: usize = i + 1;
                if i + 1 < n {
                    let nl = trim_vec(lv[i + 1].as_slice());
                    if !starts_with_digit_exec(nl.as_slice()) {
                        if nl.len() > 0 {
                            name.push(' ');
                            name.push('(');
                            let mut j: usize = 0;
                            let ghost base = name@;
                            while j < nl.len()
                                invariant
                                    j <= nl@.len(),
                                    name@ == base + nl@.subrange(0, j as int),
                                decreases nl@.len() - j,
                            {
                                name.push(nl[j]);
                                j = j + 1;
                                assert(name@ =~= base + nl@.subrange(0, j as int));
                            }
                            name.push(')');
                            proof {
                                reveal_strlit(" (");
                                reveal_strlit(")");
                                assert(nl@.subrange(0, j as int) =~= nl@);
                                assert(name@ =~= desc@ + " ("@ + nl@ + ")"@);
                            }
                        }
                        next = i + 2;
                    }
                }
                let card = AlsaCard {
                    index,
                    id: string_from_chars(id.as_slice()),
                    name: string_from_chars(name.as_slice()),
                    is_usb,
                };
                proof {
                    assert(card@.name == card_name(desc@, ls, i as int));
                }
                let ghost before = cards@;
                let ghost cv = card@;
                proof {
                    assert(cards_from(ls, i as nat) == seq![cv] + cards_from(ls, next as nat));
                }
                cards.push(card);
                proof {
                    assert(card_views(cards@) =~= card_views(before) + seq![cv]);
                }
                i = next;
            },
        }
    }
    assert(cards_from(ls, i as nat) =~= Seq::<CardView>::empty());
    assert(cards_of(content@) =~= card_views(cards@));
    cards
}

// ---------------------------------------------------------------------------
// Choosing the substream
// ---------------------------------------------------------------------------

/// A substream file read as text is in use: it says nothing of `closed` and is not blank.
pub open spec fn usable_hw(c: Option<Seq<char>>) -> bool {
    c matches Some(t) && !contains_seq(t, "closed"@) && trim(t).len() > 0
}

/// `usable_hw` as a predicate.
pub open spec fn usable_hw_pred() -> spec_fn(Option<Seq<char>>) -> bool {
    |c: Option<Seq<char>>| usable_hw(c)
}

/// The views of a list of optional texts.
pub open spec fn opt_texts(v: Seq<Option<String>>) -> Seq<Option<Seq<char>>> {
    v.map_values(|o: Option<String>| text_opt(o))
}

/// The parameters of the first usable substream, or inactive ones when none is.
pub open spec fn hw_from_candidates(cs: Seq<Option<Seq<char>>>) -> HwView {
    match first_where(cs, usable_hw_pred(), 0) {
        Some(k) => hw_params_of(cs[k]->0),
        None => hw_blank(false),
    }
}

/// The active hardware parameters of a card, given what each of its playback
/// substream `hw_params` files holds, in substream order (`None` for a file
/// that is absent or cannot be read).
pub fn select_hw_params(candidates: &Vec<Option<String>>) -> (r: AlsaHwParams)
    ensures
        r@ == hw_from_candidates(opt_texts(candidates@)),
{
    let ghost cs = opt_texts(candidates@);
    let mut k: usize = 0;
    while k < candidates.len()
        invariant
            cs == opt_texts(candidates@),
            k <= candidates@.len(),
            forall|j: int| 0 <= j < k ==> !usable_hw_pred()(#[trigger] cs[j]),
        decreases candidates@.len() - k,
    {
        match &candidates[k] {
            Some(text) => {
                let c = chars_of(text.as_str());
                let closed = contains_exec(c.as_slice(), chars_of("closed").as_slice());
                let t = trim_vec(c.as_slice());
                if !closed && t.len() > 0 {
                    proof {
                        assert(cs[k as int] == Some(text@));
                        lemma_first_where_at(cs, usable_hw_pred(), k as int);
                    }
                    return parse_hw_params_content(text.as_str());
                }
                assert(cs[k as int] == Some(text@));
            },
            None => {
                assert(cs[k as int] is None);
            },
        }
        k = k + 1;
    }
    proof {
        lemma_first_where_none(cs, usable_hw_pred());
    }
    AlsaHwParams::blank(false)
}

// ---------------------------------------------------------------------------
// Laws
// ---------------------------------------------------------------------------

/// Texts in strictly increasing order, as a sorted set of texts is walked.
pub open spec fn strictly_increasing(s: Seq<Seq<char>>) -> bool {
    forall|i: int, j: int| 0 <= i < j < s.len() ==> text_lt(#[trigger] s[i], #[trigger] s[j])
}

/// Adding a text to an increasing list keeps it increasing, and the list then
/// holds exactly the texts it held and the new one.
pub proof fn lemma_sorted_insert(s: Seq<Seq<char>>, x: Seq<char>)
    requires
        strictly_increasing(s),
    ensures
        strictly_increasing(sorted_insert(s, x)),
        forall|e: Seq<char>| #[trigger] sorted_insert(s, x).contains(e) <==> (s.contains(e) || e == x),
{
    lemma_first_where(s, not_before(x), 0);
    let u = sorted_insert(s, x);
    match first_where(s, not_before(x), 0) {
        Some(k) => {
            if s[k] == x {
            } else {
                lemma_text_lt_total(s[k], x);
                assert(text_lt(x, s[k]));
                assert forall|i: int, j: int| 0 <= i < j < u.len() implies text_lt(
                    #[trigger] u[i],
                    #[trigger] u[j],
                ) by {
                    if j < k {
                    } else if j == k {
                        assert(!not_before(x)(s[i]));
                    } else if i < k {
                        assert(!not_before(x)(s[i]));
                        assert(u[j] == s[j - 1]);
                        if j - 1 > k {
                            lemma_text_lt_transitive(x, s[k], s[j - 1]);
                        }
                        lemma_text_lt_transitive(s[i], x, s[j - 1]);
                    } else if i == k {
                        assert(u[j] == s[j - 1]);
                        if j - 1 > k {
                            lemma_text_lt_transitive(x, s[k], s[j - 1]);
                        }
                    } else {
                        assert(u[i] == s[i - 1] && u[j] == s[j - 1]);
                    }
                }
                assert forall|e: Seq<char>| #[trigger] u.contains(e) <==> (s.contains(e) || e == x) by {
                    if u.contains(e) {
                        let m = choose|m: int| 0 <= m < u.len() && u[m] == e;
                        if m < k {
                            assert(s[m] == e);
                        } else if m > k {
                            assert(s[m - 1] == e);
                        }
                    }
                    if s.contains(e) {
                        let m = choose|m: int| 0 <= m < s.len() && s[m] == e;
                        if m < k {
                            assert(u[m] == e);
                        } else {
                            assert(u[m + 1] == e);
                        }
                    }
                    if e == x {
                        assert(u[k] == x);
                    }
                }
            }
        },
        None => {
            assert forall|i: int, j: int| 0 <= i < j < u.len() implies text_lt(
                #[trigger] u[i],
                #[trigger] u[j],
            ) by {
                if j == s.len() {
                    assert(!not_before(x)(s[i]));
                }
            }
            assert forall|e: Seq<char>| #[trigger] u.contains(e) <==> (s.contains(e) || e == x) by {
                if u.contains(e) {
                    let m = choose|m: int| 0 <= m < u.len() && u[m] == e;
                    if m < s.len() {
                        assert(s[m] == e);
                    }
                }
                if s.contains(e) {
                    let m = choose|m: int| 0 <= m < s.len() && s[m] == e;
                    assert(u[m] == e);
                }
                if e == x {
                    assert(u[s.len() as int] == x);
                }
            }
        },
    }
}

proof fn lemma_stream0_lines_sorted(ls: Seq<Seq<char>>)
    ensures
        strictly_increasing(stream0_lines(ls).caps.supported_formats),
    decreases ls.len(),
{
    if ls.len() > 0 {
        lemma_stream0_lines_sorted(ls.drop_last());
        let st = stream0_lines(ls.drop_last());
        let t = trim(ls.last());
        lemma_sorted_insert(st.caps.supported_formats, trim(strip_all_prefix(t, "Format:"@)));
    }
}

/// Outside the playback section, lines that neither open a playback section
/// nor can name the card change nothing.
proof fn lemma_stream0_outside_playback(ls: Seq<Seq<char>>, rest: Seq<Seq<char>>)
    requires
        !stream0_lines(ls).in_playback,
        forall|j: int|
            0 <= j < rest.len() ==> !starts_with(trim(#[trigger] rest[j]), "Playback:"@)
                && !contains_seq(trim(rest[j]), "at usb-"@),
    ensures
        stream0_lines(ls + rest) == stream0_lines(ls),
    decreases rest.len(),
{
    if rest.len() == 0 {
        assert(ls + rest =~= ls);
    } else {
        let init = rest.drop_last();
        lemma_stream0_outside_playback(ls, init);
        assert((ls + rest).drop_last() =~= ls + init);
        assert((ls + rest).last() == rest.last());
        assert(!starts_with(trim(rest[rest.len() - 1]), "Playback:"@));
    }
}

/// Lines after a `Capture:` header (one that does not name the card) change
/// nothing, until a line opens a playback section or names the card.
pub proof fn lemma_capture_section_ignored(
    ls: Seq<Seq<char>>,
    capture: Seq<char>,
    rest: Seq<Seq<char>>,
)
    requires
        starts_with(trim(capture), "Capture:"@),
        !contains_seq(trim(capture), "at usb-"@),
        forall|j: int|
            0 <= j < rest.len() ==> !starts_with(trim(#[trigger] rest[j]), "Playback:"@)
                && !contains_seq(trim(rest[j]), "at usb-"@),
    ensures
        stream0_lines(ls.push(capture) + rest) == stream0_lines(ls.push(capture)),
{
    let pre = ls.push(capture);
    assert(pre.drop_last() =~= ls);
    assert(pre.last() == capture);
    assert(!starts_with(trim(capture), "Playback:"@)) by {
        reveal_strlit("Capture:");
        reveal_strlit("Playback:");
        let t = trim(capture);
        assert(t.subrange(0, 8) == "Capture:"@);
        assert(t[0] == t.subrange(0, 8)[0]);
        assert(t[0] == 'C');
        if starts_with(t, "Playback:"@) {
            assert(t[0] == t.subrange(0, 9)[0]);
        }
    }
    assert(!stream0_lines(pre).in_playback);
    lemma_stream0_outside_playback(pre, rest);
}

/// The text of a stream file that goes on with a `Capture:` section reads as
/// the text cut before that section's lines, as long as none of them, once
/// trimmed, opens a playback section or names the card: what the file says
/// of playback, `a + "\nCapture:\n" + b`, is what `a + "\nCapture:\n"` says.
pub proof fn lemma_capture_text_ignored(a: Seq<char>, b: Seq<char>)
    requires
        forall|j: int|
            0 <= j < lines(b).len() ==> !starts_with(trim(#[trigger] lines(b)[j]), "Playback:"@)
                && !contains_seq(trim(lines(b)[j]), "at usb-"@),
    ensures
        stream0_of(a + "\nCapture:\n"@ + b) == stream0_of(a + "\nCapture:\n"@),
{
    reveal_strlit("\nCapture:\n");
    reveal_strlit("\n");
    reveal_strlit("Capture:");
    reveal_strlit("at usb-");
    let head = a + "\n"@;
    let cl = "Capture:"@;
    let tail = cl.push('\n');
    assert(a + "\nCapture:\n"@ + b =~= head + (tail + b));
    assert(a + "\nCapture:\n"@ =~= head + tail);
    assert(head.last() == '\n');
    assert(tail.last() == '\n');
    lemma_lines_append(head, tail + b);
    lemma_lines_append(tail, b);
    lemma_lines_append(head, tail);
    lemma_lines_single(cl);
    let ls = lines(head);
    assert(lines(head) + (lines(tail) + lines(b)) =~= ls.push(cl) + lines(b));
    assert(lines(head) + lines(tail) =~= ls.push(cl));
    assert(trim_start(cl) == cl);
    assert(trim_end(cl) == cl);
    assert(starts_with(trim(cl), "Capture:"@)) by {
        assert(cl.subrange(0, 8) =~= cl);
    }
    assert(!contains_seq(trim(cl), "at usb-"@)) by {
        assert forall|i: int| !occurs_at(cl, "at usb-"@, i) by {
            if occurs_at(cl, "at usb-"@, i) {
                let w = cl.subrange(i, i + 7);
                assert(w[0] == cl[i]);
                assert(w[1] == cl[i + 1]);
            }
        }
    }
    lemma_capture_section_ignored(ls, cl, lines(b));
}

/// The first line of `/proc/asound/cards`, when it is a card's head
/// `index [id]: desc`, gives the first card: with that index and id, a name
/// that begins with the description, flagged USB exactly when the
/// description mentions `USB` or the id mentions `DSP`.
pub proof fn lemma_first_card_line(content: Seq<char>)
    requires
        lines(content).len() > 0,
        card_head(trim(lines(content)[0])) is Some,
    ensures
        ({
            let (index, id, desc) = card_head(trim(lines(content)[0]))->0;
            &&& cards_of(content).len() > 0
            &&& cards_of(content)[0].index == index
            &&& cards_of(content)[0].id == id
            &&& cards_of(content)[0].is_usb == (contains_seq(desc, "USB"@) || contains_seq(id, "DSP"@))
            &&& starts_with(cards_of(content)[0].name, desc)
        }),
{
    let ls = lines(content);
    let (index, id, desc) = card_head(trim(ls[0]))->0;
    let name = card_name(desc, ls, 0);
    if continues(ls, 0) && trim(ls[1]).len() > 0 {
        assert(name.subrange(0, desc.len() as int) =~= desc);
    } else {
        assert(name.subrange(0, desc.len() as int) =~= desc);
    }
}

/// The formats a DAC declares are listed in increasing text order with no
/// repeats, as a sorted set of format names is walked.
pub proof fn lemma_stream0_formats_sorted(content: Seq<char>)
    ensures
        strictly_increasing(stream0_of(content).supported_formats),
{
    lemma_stream0_lines_sorted(lines(content));
}

} // verus!

verus! {

// ---------------------------------------------------------------------------
// The rates and depths of a DAC, in increasing order
// ---------------------------------------------------------------------------

/// Rates in increasing order.
pub open spec fn u32_lt() -> spec_fn(u32, u32) -> bool {
    |a: u32, b: u32| a < b
}

/// Bit depths in increasing order.
pub open spec fn u8_lt() -> spec_fn(u8, u8) -> bool {
    |a: u8, b: u8| a < b
}

/// A walk of a set of rates is in increasing order.
proof fn lemma_walk_increasing_u32(q: Seq<&u32>)
    requires
        vstd::std_specs::btree::increasing_seq(q),
    ensures
        forall|i: int, j: int| 0 <= i < j < q.len() ==> *q[i] < *q[j],
{
    broadcast use vstd::std_specs::btree::group_btree_axioms;

    assert forall|i: int, j: int| 0 <= i < j < q.len() implies *q[i] < *q[j] by {
        assert(vstd::std_specs::cmp::OrdSpec::cmp_spec(&q[i], &q[j]) is Less);
    }
}

/// A walk of a set of bit depths is in increasing order.
proof fn lemma_walk_increasing_u8(q: Seq<&u8>)
    requires
        vstd::std_specs::btree::increasing_seq(q),
    ensures
        forall|i: int, j: int| 0 <= i < j < q.len() ==> *q[i] < *q[j],
{
    broadcast use vstd::std_specs::btree::group_btree_axioms;

    assert forall|i: int, j: int| 0 <= i < j < q.len() implies *q[i] < *q[j] by {
        assert(vstd::std_specs::cmp::OrdSpec::cmp_spec(&q[i], &q[j]) is Less);
    }
}

/// The supported rates in increasing order, as the set is walked.
pub fn rates_in_order(s: &BTreeSet<u32>) -> (r: Vec<u32>)
    ensures
        r@ == in_order(s@, u32_lt()),
{
    broadcast use vstd::std_specs::btree::group_btree_axioms, vstd::std_specs::btree::axiom_spec_btree_keys_iter;

    let ghost q = vstd::std_specs::iter::IteratorSpec::remaining(
        &vstd::std_specs::btree::spec_btree_keys_iter(s),
    );
    let mut out: Vec<u32> = Vec::new();
    for x in it: s.iter()
        invariant
            it.seq() == q,
            out@ == q.take(it.index() as int).map_values(|p: &u32| *p),
    {
        out.push(*x);
    }
    proof {
        lemma_walk_increasing_u32(q);
        assert(out@ =~= q.unref());
        assert(ordered_by(out@, u32_lt()));
        lemma_in_order(out@, s@, u32_lt());
    }
    out
}

/// The supported bit depths in increasing order, as the set is walked.
pub fn depths_in_order(s: &BTreeSet<u8>) -> (r: Vec<u8>)
    ensures
        r@ == in_order(s@, u8_lt()),
{
    broadcast use vstd::std_specs::btree::group_btree_axioms, vstd::std_specs::btree::axiom_spec_btree_keys_iter;

    let ghost q = vstd::std_specs::iter::IteratorSpec::remaining(
        &vstd::std_specs::btree::spec_btree_keys_iter(s),
    );
    let mut out: Vec<u8> = Vec::new();
    for x in it: s.iter()
        invariant
            it.seq() == q,
            out@ == q.take(it.index() as int).map_values(|p: &u8| *p),
    {
        out.push(*x);
    }
    proof {
        lemma_walk_increasing_u8(q);
        assert(out@ =~= q.unref());
        assert(ordered_by(out@, u8_lt()));
        lemma_in_order(out@, s@, u8_lt());
    }
    out
}

} // verus!
