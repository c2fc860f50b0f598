//! Formatting of sample rates, bitrates and durations, file name
//! sanitization, and duration parsing.

use vstd::prelude::*;
use crate::text::{
    alphanumeric, char_is_alphanumeric, chars_of, dec_repr, dec_repr2, digit_char, digit_char_exec,
    parse_uint, parse_uint_range, push_dec, push_dec2, push_str, string_from_chars, string_from_vec,
    trim, trim_range, lemma_trim_chars, lemma_trim_idempotent,
};

verus! {

/// `2^52 * 1000`: a quotient `v / 1000` at or above `2^52` has no bits
/// below the 53-bit mantissa of an `f64`.
pub open spec fn mantissa_floor() -> nat {
    4503599627370496000
}

/// `v` doubled until `v / 1000` reaches the 53-bit mantissa range of an `f64`.
pub open spec fn double_scale(v: nat) -> nat
    decreases (if v < mantissa_floor() { mantissa_floor() - v } else { 0 }),
{
    if v == 0 || v >= mantissa_floor() {
        v
    } else {
        double_scale(2 * v)
    }
}

/// Whether the `f64` nearest to `n / 1000` lies above `n / 1000`: with
/// `n / 1000` scaled into the mantissa range, its dropped fraction exceeds one half.
pub open spec fn div1000_rounds_up(n: nat) -> bool {
    double_scale(n) % 1000 > 500
}

/// The number of tenths shown when `n as f64 / 1000.0` is printed with one
/// decimal (`{:.1}`): the nearest tenth of the `f64` quotient, and an exact
/// tie, which happens only when the quotient is exact, goes to the even tenth.
pub open spec fn tenths_of_thousandths(n: nat) -> nat {
    let m = n / 100;
    let r = n % 100;
    if r < 50 {
        m
    } else if r > 50 {
        m + 1
    } else if n % 125 == 0 {
        if m % 2 == 0 {
            m
        } else {
            m + 1
        }
    } else if div1000_rounds_up(n) {
        m + 1
    } else {
        m
    }
}

/// A count of tenths printed with one decimal: `44.1`.
pub open spec fn one_decimal(t: nat) -> Seq<char> {
    dec_repr(t / 10) + seq!['.', digit_char((t % 10) as int)]
}

/// The text `format_sample_rate` gives for `hz`.
pub open spec fn sample_rate_text(hz: u32) -> Seq<char> {
    if hz == 0 {
        "Unknown"@
    } else if hz % 1000 == 0 {
        dec_repr((hz / 1000) as nat) + ".0 kHz"@
    } else {
        one_decimal(tenths_of_thousandths(hz as nat)) + " kHz"@
    }
}

/// The text `format_bitrate` gives for `kbps`.
pub open spec fn bitrate_text(kbps: u32) -> Seq<char> {
    if kbps == 0 {
        "Lossless / VBR"@
    } else if kbps >= 1000 {
        one_decimal(tenths_of_thousandths(kbps as nat)) + " Mbps"@
    } else {
        dec_repr(kbps as nat) + " kbps"@
    }
}

/// The text `format_duration` gives for `seconds`: `MM:SS`, or `HH:MM:SS` from one hour on.
pub open spec fn duration_text(seconds: nat) -> Seq<char> {
    let h = seconds / 3600;
    let m = (seconds % 3600) / 60;
    let s = seconds % 60;
    if h > 0 {
        dec_repr2(h) + seq![':'] + dec_repr2(m) + seq![':'] + dec_repr2(s)
    } else {
        dec_repr2(m) + seq![':'] + dec_repr2(s)
    }
}

/// A character kept in a file name, or `_` in its place.
pub open spec fn sanitize_char(c: char) -> char {
    if alphanumeric(c) || c == '-' || c == '_' || c == '.' || c == ' ' {
        c
    } else {
        '_'
    }
}

/// The text `sanitize_filename` gives for `s`.
pub open spec fn sanitized(s: Seq<char>) -> Seq<char> {
    trim(s.map_values(|c: char| sanitize_char(c)))
}

/// Sanitizing a sanitized file name changes nothing.
pub proof fn lemma_sanitize_idempotent(s: Seq<char>)
    ensures
        sanitized(sanitized(s)) == sanitized(s),
{
    let m = s.map_values(|c: char| sanitize_char(c));
    let t = trim(m);
    lemma_trim_chars(m);
    assert forall|j: int| 0 <= j < t.len() implies sanitize_char(#[trigger] t[j]) == t[j] by {
        assert(m.contains(t[j]));
        let i = choose|i: int| 0 <= i < m.len() && m[i] == t[j];
        assert(m[i] == sanitize_char(s[i]));
    }
    assert(t.map_values(|c: char| sanitize_char(c)) =~= t);
    lemma_trim_idempotent(m);
}

/// A sanitized name holds only letters and digits, `-`, `_`, `.` and
/// spaces, and every character of the name that is one of those stays in
/// place: a name made only of them is just trimmed.
pub proof fn lemma_sanitized_chars(s: Seq<char>)
    ensures
        forall|j: int|
            0 <= j < sanitized(s).len() ==> alphanumeric(#[trigger] sanitized(s)[j]) || sanitized(s)[j]
                == '-' || sanitized(s)[j] == '_' || sanitized(s)[j] == '.' || sanitized(s)[j] == ' ',
        (forall|j: int|
            0 <= j < s.len() ==> alphanumeric(#[trigger] s[j]) || s[j] == '-' || s[j] == '_' || s[j]
                == '.' || s[j] == ' ') ==> sanitized(s) == trim(s),
{
    let m = s.map_values(|c: char| sanitize_char(c));
    let t = trim(m);
    lemma_trim_chars(m);
    assert forall|j: int| 0 <= j < t.len() implies alphanumeric(#[trigger] t[j]) || t[j] == '-'
        || t[j] == '_' || t[j] == '.' || t[j] == ' ' by {
        assert(m.contains(t[j]));
        let i = choose|i: int| 0 <= i < m.len() && m[i] == t[j];
        assert(m[i] == sanitize_char(s[i]));
    }
    if forall|j: int|
        0 <= j < s.len() ==> alphanumeric(#[trigger] s[j]) || s[j] == '-' || s[j] == '_' || s[j]
            == '.' || s[j] == ' ' {
        assert(m =~= s);
    }
}

/// A recording is named after its station and track, both sanitized, with
/// the timestamp between them, and is a `.flac` file; without a track it
/// is named `Stream`.
pub proof fn lemma_recording_name_parts(station: Seq<char>, track: Option<Seq<char>>, timestamp: Seq<char>)
    ensures
        ({
            let n = recording_name(station, track, timestamp);
            let st = sanitized(station);
            let tr = match track {
                Some(t) => sanitized(t),
                None => "Stream"@,
            };
            let a = st.len() as int;
            let b = timestamp.len() as int;
            let c = tr.len() as int;
            &&& n.len() == a + b + c + 7
            &&& n.subrange(0, a) == st
            &&& n[a] == '_'
            &&& n.subrange(a + 1, a + 1 + b) == timestamp
            &&& n[a + 1 + b] == '_'
            &&& n.subrange(a + 2 + b, a + 2 + b + c) == tr
            &&& n.subrange(a + 2 + b + c, a + b + c + 7) == ".flac"@
        }),
{
    reveal_strlit(".flac");
    let n = recording_name(station, track, timestamp);
    let st = sanitized(station);
    let tr = match track {
        Some(t) => sanitized(t),
        None => "Stream"@,
    };
    let a = st.len() as int;
    let b = timestamp.len() as int;
    let c = tr.len() as int;
    assert(n =~= st + seq!['_'] + timestamp + seq!['_'] + tr + ".flac"@);
    assert(n.subrange(0, a) =~= st);
    assert(n.subrange(a + 1, a + 1 + b) =~= timestamp);
    assert(n.subrange(a + 2 + b, a + 2 + b + c) =~= tr);
    assert(n.subrange(a + 2 + b + c, a + b + c + 7) =~= ".flac"@);
}

/// The name of a recording file: `<Station>_<timestamp>_<Track>.flac`.
pub open spec fn recording_name(station: Seq<char>, track: Option<Seq<char>>, timestamp: Seq<char>) -> Seq<char> {
    sanitized(station) + seq!['_'] + timestamp + seq!['_'] + match track {
        Some(t) => sanitized(t),
        None => "Stream"@,
    } + ".flac"@
}

/// What `humantime::parse_duration` gives for the text `s`: whole seconds
/// and the nanoseconds below them, or `None` where it reports an error.
pub uninterp spec fn humantime_duration(s: Seq<char>) -> Option<(u64, u32)>;

/// The number of ASCII digits `0`-`9` in `s`.
pub open spec fn digit_count(s: Seq<char>) -> nat
    decreases s.len(),
{
    if s.len() == 0 {
        0
    } else {
        digit_count(s.drop_last()) + if '0' <= s.last() <= '9' {
            1nat
        } else {
            0nat
        }
    }
}

/// The longest human duration in units below a second that is read: each
/// span of it adds less than `2 * 10^10` seconds.
pub const MAX_SUBSECOND_TEXT: usize = 500_000_000;

/// A character of a unit name: an ASCII letter or the micro sign.
pub open spec fn unit_letter(c: char) -> bool {
    ('a' <= c <= 'z') || ('A' <= c <= 'Z') || c == '\u{b5}'
}

/// A unit below a second: nanoseconds, microseconds or milliseconds.
pub open spec fn subsecond_unit(w: Seq<char>) -> bool {
    w == "nanos"@ || w == "nsec"@ || w == "ns"@ || w == "usec"@ || w == "us"@ || w == "\u{b5}s"@
        || w == "millis"@ || w == "msec"@ || w == "ms"@
}

/// A unit of seconds.
pub open spec fn second_unit(w: Seq<char>) -> bool {
    seq!["seconds"@, "second"@, "secs"@, "sec"@, "s"@].contains(w)
}

/// A unit of minutes.
pub open spec fn minute_unit(w: Seq<char>) -> bool {
    seq!["minutes"@, "minute"@, "min"@, "mins"@, "m"@].contains(w)
}

/// A unit of hours.
pub open spec fn hour_unit(w: Seq<char>) -> bool {
    seq!["hours"@, "hour"@, "hr"@, "hrs"@, "h"@].contains(w)
}

/// A unit of days.
pub open spec fn day_unit(w: Seq<char>) -> bool {
    seq!["days"@, "day"@, "d"@].contains(w)
}

/// A unit of weeks.
pub open spec fn week_unit(w: Seq<char>) -> bool {
    seq!["weeks"@, "week"@, "wk"@, "wks"@, "w"@].contains(w)
}

/// A unit of months (30.44 days).
pub open spec fn month_unit(w: Seq<char>) -> bool {
    seq!["months"@, "month"@, "M"@].contains(w)
}

/// The seconds in one of the unit `w`: a unit below a second counts as one
/// second, and years, like any word that names no unit, as 31,557,600.
pub open spec fn unit_seconds(w: Seq<char>) -> nat {
    if subsecond_unit(w) || second_unit(w) {
        1
    } else if minute_unit(w) {
        60
    } else if hour_unit(w) {
        3600
    } else if day_unit(w) {
        86400
    } else if week_unit(w) {
        604800
    } else if month_unit(w) {
        2630016
    } else {
        31557600
    }
}

/// `10^n`.
pub open spec fn pow10(n: nat) -> nat
    decreases n,
{
    if n == 0 {
        1
    } else {
        10 * pow10((n - 1) as nat)
    }
}

/// `s[i..j]` is a whole run of unit letters.
pub open spec fn unit_run(s: Seq<char>, i: int, j: int) -> bool {
    &&& 0 <= i < j <= s.len()
    &&& i == 0 || !unit_letter(s[i - 1])
    &&& j == s.len() || !unit_letter(s[j])
    &&& forall|k: int| i <= k < j ==> unit_letter(#[trigger] s[k])
}

/// Every unit named in `s` is below a second.
pub open spec fn only_subsecond_units(s: Seq<char>) -> bool {
    forall|i: int, j: int| #[trigger] unit_run(s, i, j) ==> subsecond_unit(s.subrange(i, j))
}

/// The seconds that the spans of `s` add up to stay below `u64::MAX`
/// whatever the unit: with `n` digits in all, the numbers of `s` sum to
/// less than `10^n`, so for every unit it names, `10^n` of that unit and a
/// carried second for each of at most `2n` additions stay below `u64::MAX`.
pub open spec fn spans_fit(s: Seq<char>) -> bool {
    forall|i: int, j: int| #[trigger] unit_run(s, i, j) ==> pow10(digit_count(s)) * unit_seconds(
        s.subrange(i, j),
    ) + 2 * digit_count(s) < u64::MAX
}

/// The texts `humantime::parse_duration` is asked to read: those whose
/// seconds cannot reach `u64::MAX` (`spans_fit`), and those of at most
/// 500,000,000 characters that name only units below a second.
pub open spec fn duration_readable(s: Seq<char>) -> bool {
    spans_fit(s) || (only_subsecond_units(s) && s.len() <= MAX_SUBSECOND_TEXT)
}

/// What `parse_duration_str` gives: a plain number of seconds, else a
/// human duration such as `1h30m`, read from the trimmed text; a text that
/// is neither a plain number nor readable (`duration_readable`) is refused.
pub open spec fn duration_parts(s: Seq<char>) -> Option<(u64, u32)> {
    match parse_uint(trim(s), u64::MAX as int) {
        Some(v) => Some((v as u64, 0u32)),
        None => if duration_readable(trim(s)) {
            humantime_duration(trim(s))
        } else {
            None
        },
    }
}

/// Whether `c` is a unit letter.
fn unit_letter_exec(c: char) -> (r: bool)
    ensures
        r == unit_letter(c),
{
    ('a' <= c && c <= 'z') || ('A' <= c && c <= 'Z') || c == '\u{b5}'
}

/// Whether `w` names a unit below a second.
fn subsecond_unit_exec(w: &[char]) -> (r: bool)
    ensures
        r == subsecond_unit(w@),
{
    let words = ["nanos", "nsec", "ns", "usec", "us", "\u{b5}s", "millis", "msec", "ms"];
    let mut k: usize = 0;
    while k < 9
        invariant
            k <= 9,
            words@ == seq!["nanos", "nsec", "ns", "usec", "us", "\u{b5}s", "millis", "msec", "ms"],
            forall|m: int| 0 <= m < k ==> w@ != (#[trigger] words@[m])@,
        decreases 9 - k,
    {
        let c = crate::text::chars_of(words[k]);
        if crate::text::chars_eq(w, c.as_slice()) {
            return true;
        }
        k = k + 1;
    }
    assert(w@ != words@[0]@ && w@ != words@[1]@ && w@ != words@[2]@ && w@ != words@[3]@
        && w@ != words@[4]@ && w@ != words@[5]@ && w@ != words@[6]@ && w@ != words@[7]@
        && w@ != words@[8]@);
    false
}

/// Whether every unit named in `s` is below a second.
fn only_subsecond_units_exec(s: &[char]) -> (r: bool)
    ensures
        r == only_subsecond_units(s@),
{
    let mut i: usize = 0;
    while i < s.len()
        invariant
            i <= s@.len(),
            i < s@.len() && unit_letter(s@[i as int]) ==> i == 0 || !unit_letter(s@[i - 1]),
            forall|a: int, b: int| #[trigger] unit_run(s@, a, b) && a < i ==> subsecond_unit(
                s@.subrange(a, b),
            ),
        decreases s@.len() - i,
    {
        if unit_letter_exec(s[i]) {
            let mut j: usize = i + 1;
            while j < s.len() && unit_letter_exec(s[j])
                invariant
                    i < j <= s@.len(),
                    forall|k: int| i <= k < j ==> unit_letter(#[trigger] s@[k]),
                decreases s@.len() - j,
            {
                j = j + 1;
            }
            assert(unit_run(s@, i as int, j as int));
            assert forall|b: int| #[trigger] unit_run(s@, i as int, b) implies b == j by {
                if b < j {
                    assert(unit_letter(s@[b]));
                } else if b > j {
                    assert(unit_letter(s@[j as int]));
                }
            }
            let w = &s[i..j];
            assert(w@ == s@.subrange(i as int, j as int));
            if !subsecond_unit_exec(w) {
                return false;
            }
            assert forall|a: int, b: int| #[trigger] unit_run(s@, a, b) && a < j implies subsecond_unit(
                s@.subrange(a, b),
            ) by {
                if a > i {
                    assert(unit_letter(s@[a - 1]));
                }
            }
            i = j;
        } else {
            assert forall|a: int, b: int| #[trigger] unit_run(s@, a, b) && a < i + 1 implies subsecond_unit(
                s@.subrange(a, b),
            ) by {
                if a == i {
                    assert(unit_letter(s@[a]));
                }
            }
            i = i + 1;
        }
    }
    true
}

/// The number of ASCII digits in `s`.
fn digit_count_exec(s: &[char]) -> (r: usize)
    ensures
        r == digit_count(s@),
{
    let mut n: usize = 0;
    let mut i: usize = 0;
    while i < s.len()
        invariant
            i <= s@.len(),
            n == digit_count(s@.subrange(0, i as int)),
            n <= i,
        decreases s@.len() - i,
    {
        proof {
            let t = s@.subrange(0, i + 1);
            assert(t.drop_last() =~= s@.subrange(0, i as int));
            assert(t.last() == s@[i as int]);
        }
        if '0' <= s[i] && s[i] <= '9' {
            n = n + 1;
        }
        i = i + 1;
    }
    assert(s@.subrange(0, i as int) =~= s@);
    n
}

/// Whether `w` is one of `words`.
fn word_among(w: &[char], words: &[&str]) -> (r: bool)
    ensures
        r == words@.map_values(|x: &str| x@).contains(w@),
{
    let mut k: usize = 0;
    while k < words.len()
        invariant
            k <= words@.len(),
            forall|m: int| 0 <= m < k ==> w@ != (#[trigger] words@[m])@,
        decreases words@.len() - k,
    {
        let c = chars_of(words[k]);
        if crate::text::chars_eq(w, c.as_slice()) {
            assert(words@.map_values(|x: &str| x@)[k as int] == w@);
            return true;
        }
        k = k + 1;
    }
    proof {
        if words@.map_values(|x: &str| x@).contains(w@) {
            let names = words@.map_values(|x: &str| x@);
            let m = choose|m: int| 0 <= m < names.len() && #[trigger] names[m] == w@;
            assert(w@ != words@[m]@);
        }
    }
    false
}

/// The seconds in one of the unit `w` (`unit_seconds`).
fn unit_seconds_exec(w: &[char]) -> (r: u64)
    ensures
        r == unit_seconds(w@),
{
    let secs = ["seconds", "second", "secs", "sec", "s"];
    let mins = ["minutes", "minute", "min", "mins", "m"];
    let hours = ["hours", "hour", "hr", "hrs", "h"];
    let days = ["days", "day", "d"];
    let weeks = ["weeks", "week", "wk", "wks", "w"];
    let months = ["months", "month", "M"];
    assert(secs@.map_values(|x: &str| x@) =~= seq!["seconds"@, "second"@, "secs"@, "sec"@, "s"@]);
    assert(mins@.map_values(|x: &str| x@) =~= seq!["minutes"@, "minute"@, "min"@, "mins"@, "m"@]);
    assert(hours@.map_values(|x: &str| x@) =~= seq!["hours"@, "hour"@, "hr"@, "hrs"@, "h"@]);
    assert(days@.map_values(|x: &str| x@) =~= seq!["days"@, "day"@, "d"@]);
    assert(weeks@.map_values(|x: &str| x@) =~= seq!["weeks"@, "week"@, "wk"@, "wks"@, "w"@]);
    assert(months@.map_values(|x: &str| x@) =~= seq!["months"@, "month"@, "M"@]);
    if subsecond_unit_exec(w) || word_among(w, secs.as_slice()) {
        1
    } else if word_among(w, mins.as_slice()) {
        60
    } else if word_among(w, hours.as_slice()) {
        3600
    } else if word_among(w, days.as_slice()) {
        86400
    } else if word_among(w, weeks.as_slice()) {
        604800
    } else if word_among(w, months.as_slice()) {
        2630016
    } else {
        31557600
    }
}

/// `10^a <= 10^b` for `a <= b`.
proof fn lemma_pow10_mono(a: nat, b: nat)
    requires
        a <= b,
    ensures
        1 <= pow10(a) <= pow10(b),
    decreases b,
{
    if a < b {
        lemma_pow10_mono(a, (b - 1) as nat);
    } else if a > 0 {
        lemma_pow10_mono((a - 1) as nat, (a - 1) as nat);
    }
}

/// `10^n` for `n <= 20`.
fn pow10_exec(n: usize) -> (r: u128)
    requires
        n <= 20,
    ensures
        r == pow10(n as nat),
        r <= 100_000_000_000_000_000_000,
{
    let mut r: u128 = 1;
    let mut i: usize = 0;
    proof {
        reveal_with_fuel(pow10, 21);
        assert(pow10(20) == 100_000_000_000_000_000_000);
    }
    while i < n
        invariant
            i <= n <= 20,
            r == pow10(i as nat),
            pow10(20) == 100_000_000_000_000_000_000,
        decreases n - i,
    {
        proof {
            lemma_pow10_mono((i + 1) as nat, 20);
        }
        r = r * 10;
        i = i + 1;
    }
    proof {
        lemma_pow10_mono(n as nat, 20);
    }
    r
}

/// The run `s[i..j]` names a unit whose spans fit (`spans_fit`).
pub open spec fn span_fits(s: Seq<char>, i: int, j: int) -> bool {
    pow10(digit_count(s)) * unit_seconds(s.subrange(i, j)) + 2 * digit_count(s) < u64::MAX
}

/// Whether `10^d` of the unit `w` and `2d` more seconds stay below `u64::MAX`.
fn unit_fits_exec(w: &[char], d: usize) -> (r: bool)
    ensures
        r == (pow10(d as nat) * unit_seconds(w@) + 2 * d < u64::MAX),
{
    let u = unit_seconds_exec(w);
    assert(1 <= u <= 31557600);
    if d <= 20 {
        let p = pow10_exec(d);
        assert(p * (u as u128) <= 100_000_000_000_000_000_000 * 31557600) by (nonlinear_arith)
            requires
                p <= 100_000_000_000_000_000_000,
                u <= 31557600,
        ;
        p * (u as u128) + 2 * (d as u128) < 18446744073709551615u128
    } else {
        proof {
            reveal_with_fuel(pow10, 22);
            assert(pow10(21) == 1_000_000_000_000_000_000_000);
            lemma_pow10_mono(21, d as nat);
            let q = pow10(d as nat);
            assert(q * u >= q) by (nonlinear_arith)
                requires
                    u >= 1,
                    q >= 0,
            ;
        }
        false
    }
}

/// Whether the spans of `s` fit (`spans_fit`), `d` being its digit count.
fn spans_fit_exec(s: &[char], d: usize) -> (r: bool)
    requires
        d == digit_count(s@),
    ensures
        r == spans_fit(s@),
{
    let mut i: usize = 0;
    while i < s.len()
        invariant
            d == digit_count(s@),
            i <= s@.len(),
            i < s@.len() && unit_letter(s@[i as int]) ==> i == 0 || !unit_letter(s@[i - 1]),
            forall|a: int, b: int| #[trigger] unit_run(s@, a, b) && a < i ==> span_fits(s@, a, b),
        decreases s@.len() - i,
    {
        if unit_letter_exec(s[i]) {
            let mut j: usize = i + 1;
            while j < s.len() && unit_letter_exec(s[j])
                invariant
                    i < j <= s@.len(),
                    forall|k: int| i <= k < j ==> unit_letter(#[trigger] s@[k]),
                decreases s@.len() - j,
            {
                j = j + 1;
            }
            assert(unit_run(s@, i as int, j as int));
            assert forall|b: int| #[trigger] unit_run(s@, i as int, b) implies b == j by {
                if b < j {
                    assert(unit_letter(s@[b]));
                } else if b > j {
                    assert(unit_letter(s@[j as int]));
                }
            }
            let w = &s[i..j];
            assert(w@ == s@.subrange(i as int, j as int));
            if !unit_fits_exec(w, d) {
                return false;
            }
            assert forall|a: int, b: int| #[trigger] unit_run(s@, a, b) && a < j implies span_fits(
                s@,
                a,
                b,
            ) by {
                if a > i {
                    assert(unit_letter(s@[a - 1]));
                }
            }
            i = j;
        } else {
            assert forall|a: int, b: int| #[trigger] unit_run(s@, a, b) && a < i + 1 implies span_fits(
                s@,
                a,
                b,
            ) by {
                if a == i {
                    assert(unit_letter(s@[a]));
                }
            }
            i = i + 1;
        }
    }
    true
}

/// `humantime::parse_duration`; its result is named `humantime_duration` of
/// the text. The parser adds up its spans in `u64` seconds, reporting an
/// overflow as an error, but its carry of a whole second of nanoseconds goes
/// through `Duration::new`, which panics when the seconds are already
/// `u64::MAX`. A readable text stays clear of that. Where `spans_fit` holds:
/// the numbers of a text with `n` digits sum to less than `10^n`, each span
/// (and each fraction, under one unit) adds at most its number times its
/// unit's seconds, the largest that the text names, and each of the at most
/// `2n` additions carries at most one more second, so the seconds stay below
/// `u64::MAX`. Where only units below a second are named: a span adds at most
/// `u64::MAX` nanoseconds, under `2 * 10^10` seconds, and a text of at most
/// 500,000,000 characters has fewer spans than it has characters.
#[verifier::external_body]
fn humantime_parse(s: &str) -> (r: Option<(u64, u32)>)
    requires
        duration_readable(s@),
    ensures
        r == humantime_duration(s@),
{
    match humantime::parse_duration(s) {
        Ok(d) => Some((d.as_secs(), d.subsec_nanos())),
        Err(_) => None,
    }
}

/// The tenths shown for `n as f64 / 1000.0` printed with one decimal.
pub fn tenths_exec(n: u32) -> (t: u64)
    ensures
        t == tenths_of_thousandths(n as nat),
{
    let m: u64 = (n / 100) as u64;
    let r: u32 = n % 100;
    if r < 50 {
        m
    } else if r > 50 {
        m + 1
    } else if n % 125 == 0 {
        if m % 2 == 0 {
            m
        } else {
            m + 1
        }
    } else {
        let mut v: u128 = n as u128;
        while v < 4503599627370496000u128
            invariant
                0 < v < 2 * mantissa_floor(),
                double_scale(v as nat) == double_scale(n as nat),
            decreases (if v < mantissa_floor() { mantissa_floor() - v } else { 0 }),
        {
            v = v * 2;
        }
        if v % 1000 > 500 {
            m + 1
        } else {
            m
        }
    }
}

/// Append `t` tenths printed with one decimal.
pub fn push_one_decimal(out: &mut Vec<char>, t: u64)
    ensures
        final(out)@ == old(out)@ + one_decimal(t as nat),
{
    push_dec(out, t / 10);
    out.push('.');
    out.push(digit_char_exec(t % 10));
    assert(final(out)@ =~= old(out)@ + one_decimal(t as nat));
}

/// Formats a sample rate in Hertz to a human-readable string (e.g., `44.1 kHz`, `96.0 kHz`).
pub fn format_sample_rate(hz: u32) -> (r: String)
    ensures
        r@ == sample_rate_text(hz),
{
    let mut out: Vec<char> = Vec::new();
    if hz == 0 {
        push_str(&mut out, "Unknown");
    } else if hz % 1000 == 0 {
        push_dec(&mut out, (hz / 1000) as u64);
        push_str(&mut out, ".0 kHz");
    } else {
        let t = tenths_exec(hz);
        push_one_decimal(&mut out, t);
        push_str(&mut out, " kHz");
    }
    assert(out@ =~= sample_rate_text(hz));
    string_from_vec(out)
}

/// Formats a bitrate in kbps to a human-readable string (e.g., `920 kbps`, `1.4 Mbps`).
pub fn format_bitrate(kbps: u32) -> (r: String)
    ensures
        r@ == bitrate_text(kbps),
{
    let mut out: Vec<char> = Vec::new();
    if kbps == 0 {
        push_str(&mut out, "Lossless / VBR");
    } else if kbps >= 1000 {
        let t = tenths_exec(kbps);
        push_one_decimal(&mut out, t);
        push_str(&mut out, " Mbps");
    } else {
        push_dec(&mut out, kbps as u64);
        push_str(&mut out, " kbps");
    }
    assert(out@ =~= bitrate_text(kbps));
    string_from_vec(out)
}

/// Formats seconds into `MM:SS` or `HH:MM:SS`.
pub fn format_duration(seconds: u64) -> (r: String)
    ensures
        r@ == duration_text(seconds as nat),
{
    let hours: u64 = seconds / 3600;
    let minutes: u64 = (seconds % 3600) / 60;
    let secs: u64 = seconds % 60;
    let mut out: Vec<char> = Vec::new();
    if hours > 0 {
        push_dec2(&mut out, hours);
        out.push(':');
    }
    push_dec2(&mut out, minutes);
    out.push(':');
    push_dec2(&mut out, secs);
    assert(out@ =~= duration_text(seconds as nat));
    string_from_vec(out)
}

/// Sanitizes a string for use in safe file system paths: every character
/// but letters, digits, `-`, `_`, `.` and space becomes `_`, and the result
/// is trimmed.
pub fn sanitize_filename(name: &str) -> (r: String)
    ensures
        r@ == sanitized(name@),
{
    let v = chars_of(name);
    let mut mapped: Vec<char> = Vec::new();
    let mut i: usize = 0;
    while i < v.len()
        invariant
            i <= v@.len(),
            v@ == name@,
            mapped@ == v@.subrange(0, i as int).map_values(|c: char| sanitize_char(c)),
        decreases v@.len() - i,
    {
        let c = v[i];
        let keep = char_is_alphanumeric(c) || c == '-' || c == '_' || c == '.' || c == ' ';
        if keep {
            mapped.push(c);
        } else {
            mapped.push('_');
        }
        i = i + 1;
        assert(mapped@ =~= v@.subrange(0, i as int).map_values(|c: char| sanitize_char(c)));
    }
    assert(v@.subrange(0, i as int) =~= v@);
    let (a, b) = trim_range(mapped.as_slice(), 0, mapped.len());
    assert(mapped@.subrange(0, mapped@.len() as int) =~= mapped@);
    let r = string_from_chars(&mapped.as_slice()[a..b]);
    r
}

/// The file name of a new recording: the sanitized station name, the
/// timestamp, and the sanitized track (or `Stream`), with a `.flac` extension.
pub fn recording_file_name(station_name: &str, track_info: Option<&str>, timestamp: &str) -> (r: String)
    ensures
        r@ == recording_name(
            station_name@,
            match track_info {
                Some(t) => Some(t@),
                None => None,
            },
            timestamp@,
        ),
{
    let st = sanitize_filename(station_name);
    let mut out: Vec<char> = Vec::new();
    push_str(&mut out, st.as_str());
    out.push('_');
    push_str(&mut out, timestamp);
    out.push('_');
    match track_info {
        Some(t) => {
            let tr = sanitize_filename(t);
            push_str(&mut out, tr.as_str());
        },
        None => {
            push_str(&mut out, "Stream");
        },
    }
    push_str(&mut out, ".flac");
    assert(out@ =~= recording_name(
        station_name@,
        match track_info {
            Some(t) => Some(t@),
            None => None,
        },
        timestamp@,
    ));
    string_from_vec(out)
}

/// Parses human duration strings like `45m`, `1h30m`, `30s`, or raw seconds
/// `120`, into whole seconds and the nanoseconds below them.
pub fn parse_duration_parts(s: &str) -> (r: Option<(u64, u32)>)
    ensures
        r == duration_parts(s@),
{
    let v = chars_of(s);
    let (a, b) = trim_range(v.as_slice(), 0, v.len());
    assert(v@.subrange(0, v@.len() as int) =~= v@);
    match parse_uint_range(v.as_slice(), a, b, u64::MAX) {
        Some(secs) => Some((secs, 0)),
        None => {
            let t = string_from_chars(&v.as_slice()[a..b]);
            let part = &v.as_slice()[a..b];
            if spans_fit_exec(part, digit_count_exec(part)) || (only_subsecond_units_exec(part)
                && b - a <= MAX_SUBSECOND_TEXT) {
                humantime_parse(t.as_str())
            } else {
                None
            }
        },
    }
}

} // verus!
