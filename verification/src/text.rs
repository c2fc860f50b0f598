//! Character-level text utilities with specifications: whitespace trimming,
//! substring search, line splitting, unsigned decimal parsing and printing.
//!
//! Every piece of text is handled as a sequence of Unicode scalar values,
//! which is exactly the view that Verus gives to `str` and `String`.

use vstd::prelude::*;

verus! {

// ---------------------------------------------------------------------------
// Specifications
// ---------------------------------------------------------------------------

/// The Unicode `White_Space` property, the set that `char::is_whitespace` tests.
pub open spec fn is_ws(c: char) -> bool {
    let u = c as u32;
    (0x09 <= u && u <= 0x0D) || u == 0x20 || u == 0x85 || u == 0xA0 || u == 0x1680
        || (0x2000 <= u && u <= 0x200A) || u == 0x2028 || u == 0x2029 || u == 0x202F
        || u == 0x205F || u == 0x3000
}

/// `s` with its leading whitespace removed.
pub open spec fn trim_start(s: Seq<char>) -> Seq<char>
    decreases s.len(),
{
    if s.len() > 0 && is_ws(s[0]) {
        trim_start(s.drop_first())
    } else {
        s
    }
}

/// `s` with its trailing whitespace removed.
pub open spec fn trim_end(s: Seq<char>) -> Seq<char>
    decreases s.len(),
{
    if s.len() > 0 && is_ws(s.last()) {
        trim_end(s.drop_last())
    } else {
        s
    }
}

/// `s` with whitespace removed on both sides (`str::trim`).
pub open spec fn trim(s: Seq<char>) -> Seq<char> {
    trim_end(trim_start(s))
}

/// `p` occurs in `s` starting at index `i`.
pub open spec fn occurs_at(s: Seq<char>, p: Seq<char>, i: int) -> bool {
    0 <= i && i + p.len() <= s.len() && s.subrange(i, i + p.len()) == p
}

/// `p` occurs somewhere in `s` (`str::contains`).
pub open spec fn contains_seq(s: Seq<char>, p: Seq<char>) -> bool {
    exists|i: int| occurs_at(s, p, i)
}

/// `s` starts with `p` (`str::starts_with`).
pub open spec fn starts_with(s: Seq<char>, p: Seq<char>) -> bool {
    p.len() <= s.len() && s.subrange(0, p.len() as int) == p
}

/// The first index at or after `k` where `p` occurs in `s`.
pub open spec fn find_from(s: Seq<char>, p: Seq<char>, k: nat) -> Option<int>
    decreases s.len() - k,
{
    if k + p.len() > s.len() {
        None
    } else if occurs_at(s, p, k as int) {
        Some(k as int)
    } else if k >= s.len() {
        None
    } else {
        find_from(s, p, k + 1)
    }
}

/// The first index where `p` occurs in `s` (`str::find`).
pub open spec fn find_first(s: Seq<char>, p: Seq<char>) -> Option<int> {
    find_from(s, p, 0)
}

/// Split `s` around the first occurrence of `p` (`str::split_once`).
pub open spec fn split_once(s: Seq<char>, p: Seq<char>) -> Option<(Seq<char>, Seq<char>)> {
    match find_first(s, p) {
        Some(i) => Some((s.subrange(0, i), s.subrange(i + p.len(), s.len() as int))),
        None => None,
    }
}

/// The part of `s` after the prefix `p`, when `s` starts with `p` (`str::strip_prefix`).
pub open spec fn strip_prefix(s: Seq<char>, p: Seq<char>) -> Seq<char> {
    s.subrange(p.len() as int, s.len() as int)
}

/// A line as `str::lines` yields it: one trailing carriage return is dropped.
pub open spec fn strip_cr(s: Seq<char>) -> Seq<char> {
    if s.len() > 0 && s.last() == '\r' {
        s.drop_last()
    } else {
        s
    }
}

/// The lines of `s` (`str::lines`): split at `\n`, an optional `\r` before it
/// is dropped, and a final line ending yields no empty last line.
pub open spec fn lines(s: Seq<char>) -> Seq<Seq<char>>
    decreases s.len(),
{
    if s.len() == 0 {
        Seq::empty()
    } else {
        match find_first(s, seq!['\n']) {
            None => seq![s],
            Some(i) => {
                if 0 <= i < s.len() {
                    seq![strip_cr(s.subrange(0, i))] + lines(s.subrange(i + 1, s.len() as int))
                } else {
                    seq![s]
                }
            },
        }
    }
}

/// An ASCII decimal digit.
pub open spec fn is_digit(c: char) -> bool {
    '0' <= c && c <= '9'
}

/// The value of an ASCII decimal digit.
pub open spec fn digit_val(c: char) -> int {
    (c as int) - ('0' as int)
}

/// Every character of `s` is an ASCII decimal digit.
pub open spec fn all_digits(s: Seq<char>) -> bool {
    forall|i: int| 0 <= i < s.len() ==> is_digit(#[trigger] s[i])
}

/// The number written by the decimal digits `s`.
pub open spec fn dec_value(s: Seq<char>) -> int
    decreases s.len(),
{
    if s.len() == 0 {
        0
    } else {
        dec_value(s.drop_last()) * 10 + digit_val(s.last())
    }
}

/// What `FromStr` for an unsigned integer type whose largest value is `max`
/// gives for `s`: an optional `+`, then at least one decimal digit, and a
/// value that fits.
pub open spec fn parse_uint(s: Seq<char>, max: int) -> Option<int> {
    let d = if s.len() > 0 && s[0] == '+' {
        s.drop_first()
    } else {
        s
    };
    if d.len() > 0 && all_digits(d) && dec_value(d) <= max {
        Some(dec_value(d))
    } else {
        None
    }
}

/// The character of the decimal digit `d`.
pub open spec fn digit_char(d: int) -> char {
    if d == 0 {
        '0'
    } else if d == 1 {
        '1'
    } else if d == 2 {
        '2'
    } else if d == 3 {
        '3'
    } else if d == 4 {
        '4'
    } else if d == 5 {
        '5'
    } else if d == 6 {
        '6'
    } else if d == 7 {
        '7'
    } else if d == 8 {
        '8'
    } else {
        '9'
    }
}

/// The decimal representation of `n`, without leading zeros (`Display` for integers).
pub open spec fn dec_repr(n: nat) -> Seq<char>
    decreases n,
{
    if n < 10 {
        seq![digit_char(n as int)]
    } else {
        dec_repr(n / 10) + seq![digit_char((n % 10) as int)]
    }
}

/// `n` printed with at least two digits (`{:02}`).
pub open spec fn dec_repr2(n: nat) -> Seq<char> {
    if n < 10 {
        seq!['0'] + dec_repr(n)
    } else {
        dec_repr(n)
    }
}

/// The end of the run of non-whitespace characters that starts at `i`.
pub open spec fn run_end(s: Seq<char>, i: nat) -> nat
    decreases s.len() - i,
{
    if i >= s.len() || is_ws(s[i as int]) {
        i
    } else {
        run_end(s, i + 1)
    }
}

/// The first whitespace-separated word of `s` (`split_whitespace().next()`).
pub open spec fn first_word(s: Seq<char>) -> Option<Seq<char>> {
    let t = trim_start(s);
    if t.len() == 0 {
        None
    } else {
        Some(t.subrange(0, run_end(t, 0) as int))
    }
}

/// `s` with every leading repetition of `p` removed (`str::trim_start_matches`).
pub open spec fn strip_all_prefix(s: Seq<char>, p: Seq<char>) -> Seq<char>
    decreases s.len(),
{
    if p.len() > 0 && starts_with(s, p) {
        strip_all_prefix(s.subrange(p.len() as int, s.len() as int), p)
    } else {
        s
    }
}

/// The pieces of `s` between the occurrences of `c` (`str::split` on a `char`).
pub open spec fn split_char(s: Seq<char>, c: char) -> Seq<Seq<char>>
    decreases s.len(),
{
    match find_first(s, seq![c]) {
        Some(i) => {
            if 0 <= i < s.len() {
                seq![s.subrange(0, i)] + split_char(s.subrange(i + 1, s.len() as int), c)
            } else {
                seq![s]
            }
        },
        None => seq![s],
    }
}

/// Text order (`Ord` for `str`): `a` comes before `b`.
pub open spec fn text_lt(a: Seq<char>, b: Seq<char>) -> bool
    decreases a.len(),
{
    if b.len() == 0 {
        false
    } else if a.len() == 0 {
        true
    } else if a[0] != b[0] {
        a[0] < b[0]
    } else {
        text_lt(a.drop_first(), b.drop_first())
    }
}

// ---------------------------------------------------------------------------
// Lemmas
// ---------------------------------------------------------------------------

/// What `find_from` returns: an occurrence at or after `k` with none before it.
pub proof fn lemma_find_from(s: Seq<char>, p: Seq<char>, k: nat)
    ensures
        match find_from(s, p, k) {
            Some(i) => k <= i && occurs_at(s, p, i) && forall|j: int|
                k <= j < i ==> !occurs_at(s, p, j),
            None => forall|j: int| k <= j ==> !occurs_at(s, p, j),
        },
    decreases s.len() - k,
{
    if k + p.len() > s.len() {
    } else if occurs_at(s, p, k as int) {
    } else if k >= s.len() {
        assert forall|j: int| k <= j implies !occurs_at(s, p, j) by {
            if j > k {
            } else {
            }
        }
    } else {
        lemma_find_from(s, p, k + 1);
    }
}

/// `run_end` stays in bounds and moves past a non-whitespace character.
pub proof fn lemma_run_end(s: Seq<char>, i: nat)
    ensures
        i <= s.len() ==> i <= run_end(s, i) <= s.len(),
        i < s.len() && !is_ws(s[i as int]) ==> run_end(s, i) > i,
    decreases s.len() - i,
{
    if i < s.len() && !is_ws(s[i as int]) {
        lemma_run_end(s, i + 1);
    }
}

/// `find_first` of a single character: its first index, if any.
pub proof fn lemma_find_char(t: Seq<char>, c: char)
    ensures
        match find_first(t, seq![c]) {
            Some(i) => 0 <= i < t.len() && t[i] == c && forall|j: int| 0 <= j < i ==> t[j] != c,
            None => forall|j: int| 0 <= j < t.len() ==> t[j] != c,
        },
{
    lemma_find_from(t, seq![c], 0);
    assert forall|j: int| 0 <= j < t.len() implies (occurs_at(t, seq![c], j) <==> t[j] == c) by {
        if t[j] == c {
            assert(t.subrange(j, j + 1) =~= seq![c]);
        }
        if occurs_at(t, seq![c], j) {
            assert(t.subrange(j, j + 1)[0] == t[j]);
        }
    }
    match find_first(t, seq![c]) {
        Some(i) => {
            assert(t.subrange(i, i + 1)[0] == t[i]);
        },
        None => {},
    }
}

/// `p` occurs at `a` exactly when the rest of `s` from `a` starts with `p`.
pub proof fn lemma_occurs_at_starts_with(s: Seq<char>, p: Seq<char>, a: int)
    requires
        0 <= a <= s.len(),
    ensures
        occurs_at(s, p, a) <==> starts_with(s.subrange(a, s.len() as int), p),
{
    if p.len() <= s.len() - a {
        assert(s.subrange(a, s.len() as int).subrange(0, p.len() as int) =~= s.subrange(
            a,
            a + p.len(),
        ));
    }
}

/// No text comes before itself.
pub proof fn lemma_text_lt_irreflexive(a: Seq<char>)
    ensures
        !text_lt(a, a),
    decreases a.len(),
{
    if a.len() > 0 {
        lemma_text_lt_irreflexive(a.drop_first());
    }
}

/// Text order is transitive.
pub proof fn lemma_text_lt_transitive(a: Seq<char>, b: Seq<char>, c: Seq<char>)
    requires
        text_lt(a, b),
        text_lt(b, c),
    ensures
        text_lt(a, c),
    decreases a.len(),
{
    if a.len() > 0 && b.len() > 0 && c.len() > 0 && a[0] == b[0] && b[0] == c[0] {
        lemma_text_lt_transitive(a.drop_first(), b.drop_first(), c.drop_first());
    }
}

/// Of two different texts, one comes before the other.
pub proof fn lemma_text_lt_total(a: Seq<char>, b: Seq<char>)
    requires
        a != b,
    ensures
        text_lt(a, b) || text_lt(b, a),
    decreases a.len(),
{
    if a.len() == 0 {
        assert(b.len() > 0) by {
            if b.len() == 0 {
                assert(a =~= b);
            }
        }
    } else if b.len() == 0 {
    } else if a[0] == b[0] {
        if a.drop_first() == b.drop_first() {
            assert(a =~= seq![a[0]] + a.drop_first());
            assert(b =~= seq![b[0]] + b.drop_first());
        }
        lemma_text_lt_total(a.drop_first(), b.drop_first());
    } else {
        assert(a[0] < b[0] || b[0] < a[0]);
    }
}

/// `find_first` is `Some` exactly when `p` occurs in `s`.
pub proof fn lemma_find_first_contains(s: Seq<char>, p: Seq<char>)
    ensures
        find_first(s, p) is Some <==> contains_seq(s, p),
        find_first(s, p) matches Some(i) ==> occurs_at(s, p, i),
{
    lemma_find_from(s, p, 0);
    if let Some(i) = find_first(s, p) {
        assert(occurs_at(s, p, i));
    }
}

/// Adding a digit never makes a decimal value smaller.
pub proof fn lemma_dec_value_prefix(s: Seq<char>, k: int, j: int)
    requires
        0 <= k <= j <= s.len(),
        all_digits(s),
    ensures
        dec_value(s.subrange(0, k)) <= dec_value(s.subrange(0, j)),
        0 <= dec_value(s.subrange(0, k)),
    decreases j - k,
{
    lemma_dec_value_nonneg(s.subrange(0, k));
    if k < j {
        lemma_dec_value_prefix(s, k, j - 1);
        let t = s.subrange(0, j);
        assert(t.drop_last() =~= s.subrange(0, j - 1));
        assert(is_digit(s[j - 1]));
        assert(t.last() == s[j - 1]);
        lemma_dec_value_nonneg(s.subrange(0, j - 1));
    }
}

/// A decimal value is never negative.
pub proof fn lemma_dec_value_nonneg(s: Seq<char>)
    requires
        all_digits(s),
    ensures
        0 <= dec_value(s),
    decreases s.len(),
{
    if s.len() > 0 {
        assert(all_digits(s.drop_last()));
        lemma_dec_value_nonneg(s.drop_last());
        assert(is_digit(s[s.len() - 1]));
    }
}

/// The trimmed text is a part of the untrimmed one.
pub proof fn lemma_trim_start_suffix(s: Seq<char>)
    ensures
        exists|k: int| 0 <= k <= s.len() && trim_start(s) == s.subrange(k, s.len() as int),
    decreases s.len(),
{
    if s.len() > 0 && is_ws(s[0]) {
        lemma_trim_start_suffix(s.drop_first());
        let k = choose|k: int|
            0 <= k <= s.drop_first().len() && trim_start(s.drop_first())
                == s.drop_first().subrange(k, s.drop_first().len() as int);
        assert(s.drop_first().subrange(k, s.drop_first().len() as int) =~= s.subrange(
            k + 1,
            s.len() as int,
        ));
    } else {
        assert(s.subrange(0, s.len() as int) =~= s);
    }
}

/// Trimming the end keeps a prefix of the text, which is empty or ends in a
/// character that is not whitespace.
pub proof fn lemma_trim_end_prefix(s: Seq<char>)
    ensures
        exists|k: int| 0 <= k <= s.len() && trim_end(s) == s.subrange(0, k),
        trim_end(s).len() == 0 || !is_ws(trim_end(s).last()),
    decreases s.len(),
{
    if s.len() > 0 && is_ws(s.last()) {
        lemma_trim_end_prefix(s.drop_last());
        let k = choose|k: int|
            0 <= k <= s.drop_last().len() && trim_end(s.drop_last()) == s.drop_last().subrange(0, k);
        assert(s.drop_last().subrange(0, k) =~= s.subrange(0, k));
    } else {
        assert(s.subrange(0, s.len() as int) =~= s);
    }
}

/// Trimming the start leaves a text that is empty or starts with a character
/// that is not whitespace.
pub proof fn lemma_trim_start_first(s: Seq<char>)
    ensures
        trim_start(s).len() == 0 || !is_ws(trim_start(s)[0]),
    decreases s.len(),
{
    if s.len() > 0 && is_ws(s[0]) {
        lemma_trim_start_first(s.drop_first());
    }
}

/// Every character of the trimmed text is a character of the text.
pub proof fn lemma_trim_chars(s: Seq<char>)
    ensures
        forall|j: int| 0 <= j < trim(s).len() ==> s.contains(#[trigger] trim(s)[j]),
{
    lemma_trim_start_suffix(s);
    let a = choose|k: int| 0 <= k <= s.len() && trim_start(s) == s.subrange(k, s.len() as int);
    let u = trim_start(s);
    lemma_trim_end_prefix(u);
    let b = choose|k: int| 0 <= k <= u.len() && trim_end(u) == u.subrange(0, k);
    assert forall|j: int| 0 <= j < trim(s).len() implies s.contains(#[trigger] trim(s)[j]) by {
        assert(trim(s)[j] == u[j]);
        assert(u[j] == s[a + j]);
    }
}

/// Trimming twice is trimming once.
pub proof fn lemma_trim_idempotent(s: Seq<char>)
    ensures
        trim(trim(s)) == trim(s),
{
    let u = trim_start(s);
    let v = trim_end(u);
    lemma_trim_start_first(s);
    lemma_trim_end_prefix(u);
    let k = choose|k: int| 0 <= k <= u.len() && v == u.subrange(0, k);
    if v.len() > 0 {
        assert(v[0] == u[0]);
        assert(trim_start(v) == v);
    } else {
        assert(trim_start(v) == v);
    }
    assert(trim_end(v) == v);
}

/// A text that ends with a line break, followed by more text: its lines
/// come first, then the lines of the rest.
pub proof fn lemma_lines_append(x: Seq<char>, c: Seq<char>)
    requires
        x.len() > 0,
        x.last() == '\n',
    ensures
        lines(x + c) == lines(x) + lines(c),
    decreases x.len(),
{
    let s = x + c;
    lemma_find_char(x, '\n');
    lemma_find_char(s, '\n');
    let i = match find_first(x, seq!['\n']) {
        Some(i) => i,
        None => {
            assert(x[x.len() - 1] == '\n');
            0
        },
    };
    assert(s[i] == x[i]);
    match find_first(s, seq!['\n']) {
        Some(i2) => {
            if i2 < i {
                assert(s[i2] == x[i2]);
            }
        },
        None => {},
    }
    assert(find_first(s, seq!['\n']) == Some(i));
    assert(s.subrange(0, i) =~= x.subrange(0, i));
    let rest = x.subrange(i + 1, x.len() as int);
    assert(s.subrange(i + 1, s.len() as int) =~= rest + c);
    if rest.len() == 0 {
        assert(rest + c =~= c);
        assert(lines(rest) =~= Seq::<Seq<char>>::empty());
        assert(find_first(x, seq!['\n']) == Some(i));
        assert(lines(x) == seq![strip_cr(x.subrange(0, i))] + lines(rest));
        assert(lines(x) =~= seq![strip_cr(x.subrange(0, i))]);
    } else {
        assert(rest.last() == x.last());
        lemma_lines_append(rest, c);
        assert(lines(x + c) =~= seq![strip_cr(x.subrange(0, i))] + (lines(rest) + lines(c)));
    }
}

/// A single line with its line break: one line, itself.
pub proof fn lemma_lines_single(l: Seq<char>)
    requires
        forall|j: int| 0 <= j < l.len() ==> l[j] != '\n',
        l.len() == 0 || l.last() != '\r',
    ensures
        lines(l.push('\n')) == seq![l],
{
    let s = l.push('\n');
    lemma_find_char(s, '\n');
    match find_first(s, seq!['\n']) {
        Some(i) => {
            if i < l.len() {
                assert(s[i] == l[i]);
            }
        },
        None => {
            assert(s[l.len() as int] == '\n');
        },
    }
    assert(s.subrange(0, l.len() as int) =~= l);
    assert(s.subrange(l.len() as int + 1, s.len() as int) =~= Seq::<char>::empty());
    assert(lines(Seq::<char>::empty()) =~= Seq::<Seq<char>>::empty());
}

// ---------------------------------------------------------------------------
// Wrappers around `std` text functions
// ---------------------------------------------------------------------------

/// The characters of `s`, in order (`str::chars` collected into a vector).
pub(crate) fn chars_of(s: &str) -> (r: Vec<char>)
    ensures
        r@ == s@,
{
    broadcast use vstd::string::axiom_spec_iter, vstd::string::next_postcondition;

    let mut out: Vec<char> = Vec::new();
    for c in it: s.chars()
        invariant
            it.seq() == s@,
            out@ == it.seq().take(it.index() as int),
    {
        out.push(c);
    }
    out
}

/// A `String` made of the characters `s` (`FromIterator<&char>` for `String`).
#[verifier::external_body]
pub(crate) fn string_from_chars(s: &[char]) -> (r: String)
    ensures
        r@ == s@,
{
    s.iter().collect()
}

/// The lower-case mapping of `s` as `str::to_lowercase` computes it (full
/// Unicode case mapping, which depends on the characters of `s` alone).
pub uninterp spec fn lowercase(s: Seq<char>) -> Seq<char>;

/// The upper-case mapping of `s` as `str::to_uppercase` computes it.
pub uninterp spec fn uppercase(s: Seq<char>) -> Seq<char>;

/// Whether `c` is alphabetic or numeric in Unicode, as `char::is_alphanumeric` decides.
pub uninterp spec fn alphanumeric(c: char) -> bool;

/// `str::to_lowercase`: the result is named `lowercase` of the input.
#[verifier::external_body]
pub(crate) fn str_to_lowercase(s: &str) -> (r: String)
    ensures
        r@ == lowercase(s@),
{
    s.to_lowercase()
}

/// `str::to_uppercase`: the result is named `uppercase` of the input.
#[verifier::external_body]
pub(crate) fn str_to_uppercase(s: &str) -> (r: String)
    ensures
        r@ == uppercase(s@),
{
    s.to_uppercase()
}

/// `char::is_alphanumeric`: the result is named `alphanumeric` of the input.
#[verifier::external_body]
pub(crate) fn char_is_alphanumeric(c: char) -> (r: bool)
    ensures
        r == alphanumeric(c),
{
    c.is_alphanumeric()
}

// ---------------------------------------------------------------------------
// Executable functions
// ---------------------------------------------------------------------------

/// Whether two character sequences are equal.
pub fn chars_eq(a: &[char], b: &[char]) -> (r: bool)
    ensures
        r == (a@ == b@),
{
    if a.len() != b.len() {
        return false;
    }
    let mut i: usize = 0;
    while i < a.len()
        invariant
            a@.len() == b@.len(),
            i <= a@.len(),
            forall|j: int| 0 <= j < i ==> a@[j] == b@[j],
        decreases a@.len() - i,
    {
        if a[i] != b[i] {
            return false;
        }
        i = i + 1;
    }
    assert(a@ =~= b@);
    true
}

/// Whether two texts are equal (`==` on `str`).
pub fn str_eq(a: &str, b: &str) -> (r: bool)
    ensures
        r == (a@ == b@),
{
    let av = chars_of(a);
    let bv = chars_of(b);
    chars_eq(av.as_slice(), bv.as_slice())
}

/// A `String` made of the characters `v`.
pub fn string_from_vec(v: Vec<char>) -> (r: String)
    ensures
        r@ == v@,
{
    string_from_chars(v.as_slice())
}

/// A `String` holding the text `s`.
pub fn to_string(s: &str) -> (r: String)
    ensures
        r@ == s@,
{
    let v = chars_of(s);
    string_from_chars(v.as_slice())
}

/// Whether `c` is whitespace (`char::is_whitespace`).
pub fn char_is_ws(c: char) -> (r: bool)
    ensures
        r == is_ws(c),
{
    let u: u32 = c as u32;
    (0x09 <= u && u <= 0x0D) || u == 0x20 || u == 0x85 || u == 0xA0 || u == 0x1680 || (0x2000
        <= u && u <= 0x200A) || u == 0x2028 || u == 0x2029 || u == 0x202F || u == 0x205F || u
        == 0x3000
}

/// The bounds of `s[lo..hi]` with its surrounding whitespace removed.
pub fn trim_range(s: &[char], lo: usize, hi: usize) -> (r: (usize, usize))
    requires
        lo <= hi <= s@.len(),
    ensures
        lo <= r.0 <= r.1 <= hi,
        s@.subrange(r.0 as int, r.1 as int) == trim(s@.subrange(lo as int, hi as int)),
{
    let mut a: usize = lo;
    while a < hi && char_is_ws(s[a])
        invariant
            lo <= a <= hi <= s@.len(),
            trim_start(s@.subrange(lo as int, hi as int)) == trim_start(
                s@.subrange(a as int, hi as int),
            ),
        decreases hi - a,
    {
        assert(s@.subrange(a as int, hi as int).drop_first() =~= s@.subrange(
            a + 1,
            hi as int,
        ));
        a = a + 1;
    }
    let mut b: usize = hi;
    while b > a && char_is_ws(s[b - 1])
        invariant
            lo <= a <= b <= hi <= s@.len(),
            trim_end(s@.subrange(a as int, hi as int)) == trim_end(s@.subrange(a as int, b as int)),
        decreases b - a,
    {
        assert(s@.subrange(a as int, b as int).drop_last() =~= s@.subrange(a as int, b - 1));
        b = b - 1;
    }
    (a, b)
}

/// Whether `p` occurs in `s` at index `i`.
pub fn occurs_at_exec(s: &[char], p: &[char], i: usize) -> (r: bool)
    ensures
        r == occurs_at(s@, p@, i as int),
{
    if i > s.len() || p.len() > s.len() - i {
        return false;
    }
    let mut j: usize = 0;
    while j < p.len()
        invariant
            i + p@.len() <= s.len(),
            j <= p@.len(),
            forall|t: int| 0 <= t < j ==> s@[i + t] == p@[t],
        decreases p@.len() - j,
    {
        if s[i + j] != p[j] {
            assert(s@.subrange(i as int, i + p@.len())[j as int] != p@[j as int]);
            return false;
        }
        j = j + 1;
    }
    assert(s@.subrange(i as int, i + p@.len()) =~= p@);
    true
}

/// The first index at or after `k` where `p` occurs in `s`.
pub fn find_from_exec(s: &[char], p: &[char], k: usize) -> (r: Option<usize>)
    ensures
        match find_from(s@, p@, k as nat) {
            Some(i) => r == Some(i as usize),
            None => r is None,
        },
{
    if p.len() == 0 {
        if k <= s.len() {
            assert(occurs_at(s@, p@, k as int)) by {
                assert(s@.subrange(k as int, k as int) =~= p@);
            }
            return Some(k);
        }
        return None;
    }
    let mut i: usize = k;
    while i < s.len() && p.len() <= s.len() - i
        invariant
            k <= i,
            p@.len() > 0,
            find_from(s@, p@, k as nat) == find_from(s@, p@, i as nat),
        decreases s@.len() - i,
    {
        if occurs_at_exec(s, p, i) {
            return Some(i);
        }
        i = i + 1;
    }
    None
}

/// Whether `p` occurs in `s` (`str::contains`).
pub fn contains_exec(s: &[char], p: &[char]) -> (r: bool)
    ensures
        r == contains_seq(s@, p@),
{
    proof {
        lemma_find_first_contains(s@, p@);
    }
    find_from_exec(s, p, 0).is_some()
}

/// Whether `s` starts with `p`.
pub fn starts_with_exec(s: &[char], p: &[char]) -> (r: bool)
    ensures
        r == starts_with(s@, p@),
{
    let r = occurs_at_exec(s, p, 0);
    r
}

/// Whether the text `s` contains the text `p`.
pub fn str_contains(s: &str, p: &str) -> (r: bool)
    ensures
        r == contains_seq(s@, p@),
{
    let sv = chars_of(s);
    let pv = chars_of(p);
    contains_exec(sv.as_slice(), pv.as_slice())
}

/// The line ranges of `s` (`str::lines`), each as a start and end index.
pub fn line_ranges(s: &[char]) -> (r: Vec<(usize, usize)>)
    ensures
        r@.len() == lines(s@).len(),
        forall|i: int|
            0 <= i < r@.len() ==> {
                &&& (#[trigger] r@[i]).0 <= r@[i].1 <= s@.len()
                &&& s@.subrange(r@[i].0 as int, r@[i].1 as int) == lines(s@)[i]
            },
{
    let mut out: Vec<(usize, usize)> = Vec::new();
    let mut pos: usize = 0;
    let nl: [char; 1] = ['\n'];
    let ghost done: Seq<Seq<char>> = Seq::empty();
    assert(s@.subrange(0, s@.len() as int) =~= s@);
    assert(lines(s@) =~= done + lines(s@.subrange(0, s@.len() as int)));
    while pos < s.len()
        invariant
            pos <= s@.len(),
            nl@ == seq!['\n'],
            out@.len() == done.len(),
            lines(s@) == done + lines(s@.subrange(pos as int, s@.len() as int)),
            forall|i: int|
                0 <= i < out@.len() ==> {
                    &&& (#[trigger] out@[i]).0 <= out@[i].1 <= s@.len()
                    &&& s@.subrange(out@[i].0 as int, out@[i].1 as int) == done[i]
                },
        decreases s@.len() - pos,
    {
        let ghost rest = s@.subrange(pos as int, s@.len() as int);
        let f = find_from_exec(s, nl.as_slice(), pos);
        proof {
            lemma_find_from(s@, seq!['\n'], pos as nat);
            lemma_find_from(rest, seq!['\n'], 0);
            // an occurrence in `rest` at j is an occurrence in `s` at pos + j
            assert forall|j: int| 0 <= j implies (occurs_at(rest, seq!['\n'], j) <==> occurs_at(s@, seq!['\n'], pos + j)) by {
                if 0 <= j && j + 1 <= rest.len() {
                    assert(rest.subrange(j, j + 1) =~= s@.subrange(pos + j, pos + j + 1));
                }
            }
        }
        match f {
            None => {
                proof {
                    assert(find_first(rest, seq!['\n']) is None) by {
                        if let Some(j) = find_first(rest, seq!['\n']) {
                            assert(occurs_at(s@, seq!['\n'], pos + j));
                        }
                    }
                    assert(lines(rest) == seq![rest]);
                    assert(lines(s@.subrange(s@.len() as int, s@.len() as int)) =~= Seq::<Seq<char>>::empty());
                }
                out.push((pos, s.len()));
                proof {
                    done = done.push(rest);
                    assert(lines(s@) =~= done + lines(s@.subrange(s@.len() as int, s@.len() as int)));
                }
                pos = s.len();
            },
            Some(i) => {
                let ghost j = i - pos;
                proof {
                    assert(find_first(rest, seq!['\n']) == Some(j)) by {
                        let fr = find_first(rest, seq!['\n']);
                        assert(occurs_at(rest, seq!['\n'], j));
                        if let Some(j2) = fr {
                            assert(occurs_at(s@, seq!['\n'], pos + j2));
                            if j2 < j {
                                assert(!occurs_at(s@, seq!['\n'], pos + j2));
                            }
                        }
                    }
                    assert(rest.subrange(j + 1, rest.len() as int) =~= s@.subrange(
                        i + 1,
                        s@.len() as int,
                    ));
                    assert(rest.subrange(0, j) =~= s@.subrange(pos as int, i as int));
                }
                let e: usize = if i > pos && s[i - 1] == '\r' {
                    i - 1
                } else {
                    i
                };
                proof {
                    let ln = s@.subrange(pos as int, i as int);
                    if i > pos && s@[i - 1] == '\r' {
                        assert(ln.drop_last() =~= s@.subrange(pos as int, e as int));
                    }
                    assert(strip_cr(ln) == s@.subrange(pos as int, e as int));
                }
                out.push((pos, e));
                proof {
                    done = done.push(strip_cr(rest.subrange(0, j)));
                    assert(lines(rest) == seq![strip_cr(rest.subrange(0, j))] + lines(
                        rest.subrange(j + 1, rest.len() as int),
                    ));
                    assert(lines(s@) =~= done + lines(s@.subrange(i + 1, s@.len() as int)));
                }
                pos = i + 1;
            },
        }
    }
    proof {
        assert(s@.subrange(pos as int, s@.len() as int) =~= Seq::<char>::empty());
        assert(lines(s@) =~= done);
    }
    out
}

/// The value of the decimal text `s[lo..hi]` read as an unsigned integer no
/// larger than `max` (`FromStr` for `u8`, `u32`, `u64`).
pub fn parse_uint_range(s: &[char], lo: usize, hi: usize, max: u64) -> (r: Option<u64>)
    requires
        lo <= hi <= s@.len(),
    ensures
        match parse_uint(s@.subrange(lo as int, hi as int), max as int) {
            Some(v) => r == Some(v as u64) && 0 <= v <= max,
            None => r is None,
        },
{
    let ghost t = s@.subrange(lo as int, hi as int);
    let mut a: usize = lo;
    if lo < hi && s[lo] == '+' {
        a = lo + 1;
    }
    let ghost d = s@.subrange(a as int, hi as int);
    proof {
        if lo < hi {
            assert(t[0] == s@[lo as int]);
        }
        if lo < hi && s@[lo as int] == '+' {
            assert(t.drop_first() =~= d);
        } else {
            assert(t =~= d);
        }
        assert(d == (if t.len() > 0 && t[0] == '+' { t.drop_first() } else { t }));
    }
    if a >= hi {
        return None;
    }
    let mut v: u64 = 0;
    let mut i: usize = a;
    while i < hi
        invariant
            lo <= a <= i <= hi <= s@.len(),
            t == s@.subrange(lo as int, hi as int),
            d == (if t.len() > 0 && t[0] == '+' { t.drop_first() } else { t }),
            d == s@.subrange(a as int, hi as int),
            all_digits(d.subrange(0, i - a)),
            v == dec_value(d.subrange(0, i - a)),
            v <= max,
        decreases hi - i,
    {
        let c = s[i];
        if !('0' <= c && c <= '9') {
            proof {
                assert(!is_digit(d[i - a]));
                assert(!all_digits(d));
            }
            return None;
        }
        let dv: u64 = (c as u64) - ('0' as u64);
        let nv: u128 = (v as u128) * 10 + (dv as u128);
        proof {
            let p = d.subrange(0, i - a + 1);
            assert(p.drop_last() =~= d.subrange(0, i - a));
            assert(p.last() == c);
            assert(all_digits(p));
        }
        if nv > max as u128 {
            proof {
                let dd = d;
                if all_digits(dd) {
                    lemma_dec_value_prefix(dd, i - a + 1, dd.len() as int);
                    assert(dd.subrange(0, dd.len() as int) =~= dd);
                    assert(dec_value(dd) > max);
                }
            }
            return None;
        }
        v = nv as u64;
        i = i + 1;
    }
    proof {
        assert(d.subrange(0, i - a) =~= d);
    }
    Some(v)
}

/// The value of the decimal text `s` read as a `u32` (`str::parse::<u32>`).
pub fn parse_u32_str(s: &[char], lo: usize, hi: usize) -> (r: Option<u32>)
    requires
        lo <= hi <= s@.len(),
    ensures
        match parse_uint(s@.subrange(lo as int, hi as int), u32::MAX as int) {
            Some(v) => r == Some(v as u32),
            None => r is None,
        },
{
    let m: u64 = 0xFFFF_FFFF;
    assert(u32::MAX as int == m as int);
    match parse_uint_range(s, lo, hi, m) {
        Some(v) => {
            proof {
                let sv = parse_uint(s@.subrange(lo as int, hi as int), m as int);
                assert(sv is Some);
                assert(sv->0 <= m);
                assert(v as int == sv->0);
            }
            Some(v as u32)
        },
        None => None,
    }
}

/// The character of the decimal digit `d`.
pub fn digit_char_exec(d: u64) -> (c: char)
    requires
        d < 10,
    ensures
        c == digit_char(d as int),
{
    if d == 0 {
        '0'
    } else if d == 1 {
        '1'
    } else if d == 2 {
        '2'
    } else if d == 3 {
        '3'
    } else if d == 4 {
        '4'
    } else if d == 5 {
        '5'
    } else if d == 6 {
        '6'
    } else if d == 7 {
        '7'
    } else if d == 8 {
        '8'
    } else {
        '9'
    }
}

/// Append the decimal representation of `n` to `out`.
pub fn push_dec(out: &mut Vec<char>, n: u64)
    ensures
        final(out)@ == old(out)@ + dec_repr(n as nat),
    decreases n,
{
    if n >= 10 {
        push_dec(out, n / 10);
    }
    out.push(digit_char_exec(n % 10));
    proof {
        if n < 10 {
            assert(dec_repr(n as nat) == seq![digit_char(n as int)]);
        }
    }
    assert(final(out)@ =~= old(out)@ + dec_repr(n as nat));
}

/// Append `n` with at least two digits (`{:02}`) to `out`.
pub fn push_dec2(out: &mut Vec<char>, n: u64)
    ensures
        final(out)@ == old(out)@ + dec_repr2(n as nat),
{
    if n < 10 {
        out.push('0');
    }
    push_dec(out, n);
    assert(final(out)@ =~= old(out)@ + dec_repr2(n as nat));
}

/// Append the characters of `s` to `out`.
pub fn push_str(out: &mut Vec<char>, s: &str)
    ensures
        final(out)@ == old(out)@ + s@,
{
    let v = chars_of(s);
    let mut i: usize = 0;
    while i < v.len()
        invariant
            i <= v@.len(),
            v@ == s@,
            out@ == old(out)@ + v@.subrange(0, i as int),
        decreases v@.len() - i,
    {
        out.push(v[i]);
        i = i + 1;
        assert(out@ =~= old(out)@ + v@.subrange(0, i as int));
    }
    assert(v@.subrange(0, i as int) =~= v@);
}

/// The characters `s[lo..hi]` as a new vector.
pub fn sub_vec(s: &[char], lo: usize, hi: usize) -> (r: Vec<char>)
    requires
        lo <= hi <= s@.len(),
    ensures
        r@ == s@.subrange(lo as int, hi as int),
{
    let mut r: Vec<char> = Vec::new();
    let mut i: usize = lo;
    while i < hi
        invariant
            lo <= i <= hi <= s@.len(),
            r@ == s@.subrange(lo as int, i as int),
        decreases hi - i,
    {
        r.push(s[i]);
        i = i + 1;
        assert(r@ =~= s@.subrange(lo as int, i as int));
    }
    r
}

/// `s` with its surrounding whitespace removed (`str::trim`).
pub fn trim_vec(s: &[char]) -> (r: Vec<char>)
    ensures
        r@ == trim(s@),
{
    let (a, b) = trim_range(s, 0, s.len());
    assert(s@.subrange(0, s@.len() as int) =~= s@);
    sub_vec(s, a, b)
}

/// The first whitespace-separated word of `s`.
pub fn first_word_exec(s: &[char]) -> (r: Option<Vec<char>>)
    ensures
        match first_word(s@) {
            Some(w) => r is Some && r->0@ == w,
            None => r is None,
        },
{
    let mut a: usize = 0;
    assert(s@.subrange(0, s@.len() as int) =~= s@);
    while a < s.len() && char_is_ws(s[a])
        invariant
            a <= s@.len(),
            trim_start(s@) == trim_start(s@.subrange(a as int, s@.len() as int)),
        decreases s@.len() - a,
    {
        assert(s@.subrange(a as int, s@.len() as int).drop_first() =~= s@.subrange(
            a + 1,
            s@.len() as int,
        ));
        a = a + 1;
    }
    let ghost t = s@.subrange(a as int, s@.len() as int);
    assert(trim_start(t) == t);
    if a == s.len() {
        return None;
    }
    let mut b: usize = a;
    while b < s.len() && !char_is_ws(s[b])
        invariant
            a <= b <= s@.len(),
            t == s@.subrange(a as int, s@.len() as int),
            run_end(t, 0) == run_end(t, (b - a) as nat),
        decreases s@.len() - b,
    {
        assert(t[b - a] == s@[b as int]);
        b = b + 1;
    }
    proof {
        if b < s@.len() {
            assert(t[b - a] == s@[b as int]);
        }
        assert(run_end(t, (b - a) as nat) == b - a);
        assert(t.subrange(0, (b - a) as int) =~= s@.subrange(a as int, b as int));
    }
    Some(sub_vec(s, a, b))
}

/// `s` with every leading repetition of `p` removed (`str::trim_start_matches`).
pub fn strip_all_prefix_exec(s: &[char], p: &[char]) -> (r: Vec<char>)
    ensures
        r@ == strip_all_prefix(s@, p@),
{
    let mut a: usize = 0;
    let n: usize = s.len();
    assert(s@.subrange(0, s@.len() as int) =~= s@);
    if p.len() > 0 {
        while occurs_at_exec(s, p, a)
            invariant
                a <= s@.len(),
                n == s@.len(),
                p@.len() > 0,
                strip_all_prefix(s@, p@) == strip_all_prefix(
                    s@.subrange(a as int, s@.len() as int),
                    p@,
                ),
            decreases s@.len() - a,
        {
            proof {
                assert(occurs_at(s@, p@, a as int));
                lemma_occurs_at_starts_with(s@, p@, a as int);
                let rest = s@.subrange(a as int, s@.len() as int);
                assert(rest.subrange(p@.len() as int, rest.len() as int) =~= s@.subrange(
                    a + p@.len(),
                    s@.len() as int,
                ));
            }
            a = a + p.len();
        }
        proof {
            lemma_occurs_at_starts_with(s@, p@, a as int);
        }
    }
    sub_vec(s, a, s.len())
}

/// The pieces of `s` between the occurrences of `c` (`str::split` on a `char`).
pub fn split_char_exec(s: &[char], c: char) -> (r: Vec<Vec<char>>)
    ensures
        r@.map_values(|v: Vec<char>| v@) == split_char(s@, c),
{
    let mut out: Vec<Vec<char>> = Vec::new();
    let mut start: usize = 0;
    let mut j: usize = 0;
    let ghost done: Seq<Seq<char>> = Seq::empty();
    assert(s@.subrange(0, s@.len() as int) =~= s@);
    while j < s.len()
        invariant
            start <= j <= s@.len(),
            out@.map_values(|v: Vec<char>| v@) == done,
            split_char(s@, c) == done + split_char(s@.subrange(start as int, s@.len() as int), c),
            forall|k: int| start <= k < j ==> s@[k] != c,
        decreases s@.len() - j,
    {
        if s[j] == c {
            let ghost rest = s@.subrange(start as int, s@.len() as int);
            proof {
                lemma_find_char(rest, c);
                assert(rest[j - start] == c);
                match find_first(rest, seq![c]) {
                    Some(i) => {
                        if i < j - start {
                            assert(rest[i] == s@[start + i]);
                        }
                        if i > j - start {
                            assert(rest[j - start] != c);
                        }
                    },
                    None => {
                        assert(rest[j - start] != c);
                    },
                }
                assert(rest.subrange(0, j - start) =~= s@.subrange(start as int, j as int));
                assert(rest.subrange(j - start + 1, rest.len() as int) =~= s@.subrange(
                    j + 1,
                    s@.len() as int,
                ));
            }
            let piece = sub_vec(s, start, j);
            out.push(piece);
            proof {
                done = done.push(s@.subrange(start as int, j as int));
                assert(out@.map_values(|v: Vec<char>| v@) =~= done);
                assert(split_char(s@, c) =~= done + split_char(
                    s@.subrange(j + 1, s@.len() as int),
                    c,
                ));
            }
            start = j + 1;
        }
        j = j + 1;
    }
    let ghost rest = s@.subrange(start as int, s@.len() as int);
    proof {
        lemma_find_char(rest, c);
        match find_first(rest, seq![c]) {
            Some(i) => {
                assert(rest[i] == s@[start + i]);
            },
            None => {},
        }
        assert(split_char(rest, c) == seq![rest]);
    }
    let last = sub_vec(s, start, s.len());
    out.push(last);
    proof {
        done = done.push(rest);
        assert(out@.map_values(|v: Vec<char>| v@) =~= done);
        assert(split_char(s@, c) =~= done);
    }
    out
}

/// `s` split around the first occurrence of `p` (`str::split_once`).
pub fn split_once_exec(s: &[char], p: &[char]) -> (r: Option<(Vec<char>, Vec<char>)>)
    ensures
        match split_once(s@, p@) {
            Some((a, b)) => r matches Some((x, y)) && x@ == a && y@ == b,
            None => r is None,
        },
{
    let n: usize = s.len();
    proof {
        lemma_find_from(s@, p@, 0);
    }
    match find_from_exec(s, p, 0) {
        Some(i) => {
            assert(occurs_at(s@, p@, i as int));
            let a = sub_vec(s, 0, i);
            let b = sub_vec(s, i + p.len(), s.len());
            Some((a, b))
        },
        None => None,
    }
}

/// Whether text `a` comes before text `b`.
pub fn text_less(a: &[char], b: &[char]) -> (r: bool)
    ensures
        r == text_lt(a@, b@),
{
    let mut i: usize = 0;
    assert(a@.subrange(0, a@.len() as int) =~= a@);
    assert(b@.subrange(0, b@.len() as int) =~= b@);
    while i < a.len() && i < b.len()
        invariant
            i <= a@.len(),
            i <= b@.len(),
            text_lt(a@, b@) == text_lt(
                a@.subrange(i as int, a@.len() as int),
                b@.subrange(i as int, b@.len() as int),
            ),
        decreases a@.len() - i,
    {
        let ghost sa = a@.subrange(i as int, a@.len() as int);
        let ghost sb = b@.subrange(i as int, b@.len() as int);
        assert(sa[0] == a@[i as int]);
        assert(sb[0] == b@[i as int]);
        if a[i] != b[i] {
            return a[i] < b[i];
        }
        assert(sa.drop_first() =~= a@.subrange(i + 1, a@.len() as int));
        assert(sb.drop_first() =~= b@.subrange(i + 1, b@.len() as int));
        i = i + 1;
    }
    i == a.len() && i < b.len()
}

} // verus!
