//! Character-level text primitives shared by the prompt, planning and memory code.
//!
//! Text is modelled as `Seq<char>`: exec code works on `Vec<char>` and converts
//! at the edges from `&str` and into `String`.
use vstd::prelude::*;

verus! {

// ---------------------------------------------------------------------------
// Character classes
// ---------------------------------------------------------------------------

/// Unicode `White_Space`, the set that `char::is_whitespace` recognises.
pub open spec fn is_ws(c: char) -> bool {
    let u = c as u32;
    (0x9 <= u && u <= 0xd) || u == 0x20 || u == 0x85 || u == 0xa0 || u == 0x1680 || (0x2000 <= u
        && u <= 0x200a) || u == 0x2028 || u == 0x2029 || u == 0x202f || u == 0x205f || u == 0x3000
}

pub fn is_whitespace_char(c: char) -> (r: bool)
    ensures
        r == is_ws(c),
{
    let u = c as u32;
    (0x9 <= u && u <= 0xd) || u == 0x20 || u == 0x85 || u == 0xa0 || u == 0x1680 || (0x2000 <= u
        && u <= 0x200a) || u == 0x2028 || u == 0x2029 || u == 0x202f || u == 0x205f || u == 0x3000
}

pub open spec fn is_ascii_alnum(c: char) -> bool {
    ('a' <= c && c <= 'z') || ('A' <= c && c <= 'Z') || ('0' <= c && c <= '9')
}

/// What `char::is_alphanumeric` answers (Unicode `Alphabetic` or `Numeric`).
pub uninterp spec fn spec_is_alphanumeric(c: char) -> bool;

/// Calls `char::is_alphanumeric`. Besides naming the answer, the contract states
/// what its documentation gives for ASCII: exactly the letters and digits qualify.
#[verifier::external_body]
pub(crate) fn is_alphanumeric_char(c: char) -> (r: bool)
    ensures
        r == spec_is_alphanumeric(c),
        (c as u32) < 128 ==> (r <==> is_ascii_alnum(c)),
{
    c.is_alphanumeric()
}

/// What `str::to_lowercase` returns (full Unicode lower-casing).
pub uninterp spec fn spec_to_lowercase(s: Seq<char>) -> Seq<char>;

/// Calls `str::to_lowercase`; the result is named by `spec_to_lowercase`. Also
/// stated is what the documentation gives for ASCII text: each character is
/// lowered on its own, `A`..`Z` to `a`..`z` and the rest unchanged.
#[verifier::external_body]
pub(crate) fn to_lowercase_string(s: &str) -> (r: String)
    ensures
        r@ == spec_to_lowercase(s@),
        (forall|i: int| 0 <= i < s@.len() ==> (#[trigger] s@[i] as u32) < 128) ==> r@ == s@.map_values(
            |c: char| ascii_lower(c),
        ),
{
    s.to_lowercase()
}

/// What `char::to_uppercase` yields, as a sequence of characters.
pub uninterp spec fn spec_char_to_uppercase(c: char) -> Seq<char>;

/// Calls `char::to_uppercase` and renders its characters; named by
/// `spec_char_to_uppercase`. Also stated is what the documentation gives for an
/// ASCII character: the single character `to_ascii_uppercase` gives.
#[verifier::external_body]
pub(crate) fn char_to_uppercase(c: char) -> (r: String)
    ensures
        r@ == spec_char_to_uppercase(c),
        (c as u32) < 128 ==> r@ == seq![ascii_upper(c)],
{
    format!("{}", c.to_uppercase())
}

pub open spec fn ascii_lower(c: char) -> char {
    if 'A' <= c && c <= 'Z' {
        ((c as u32) + 32) as char
    } else {
        c
    }
}

pub open spec fn ascii_upper(c: char) -> char {
    if 'a' <= c && c <= 'z' {
        ((c as u32) - 32) as char
    } else {
        c
    }
}

// ---------------------------------------------------------------------------
// String conversion
// ---------------------------------------------------------------------------

/// `String::push` appends one character.
pub assume_specification[ String::push ](s: &mut String, ch: char)
    ensures
        final(s)@ == old(s)@.push(ch),
;

pub fn chars_of(s: &str) -> (v: Vec<char>)
    ensures
        v@ == s@,
{
    let mut v: Vec<char> = Vec::new();
    for c in it: s.chars()
        invariant
            v@ == it.seq().take(it.index() as int),
            it.seq() == s@,
    {
        v.push(c);
    }
    v
}

pub fn string_of(v: &Vec<char>) -> (s: String)
    ensures
        s@ == v@,
{
    let mut s = String::new();
    let mut i: usize = 0;
    while i < v.len()
        invariant
            i <= v.len(),
            s@ == v@.take(i as int),
        decreases v.len() - i,
    {
        s.push(v[i]);
        i = i + 1;
        assert(s@ =~= v@.take(i as int));
    }
    assert(v@.take(v.len() as int) =~= v@);
    s
}

pub fn lowercase_chars(s: &str) -> (v: Vec<char>)
    ensures
        v@ == spec_to_lowercase(s@),
{
    let lower = to_lowercase_string(s);
    chars_of(lower.as_str())
}

pub fn append_chars(out: &mut Vec<char>, extra: &Vec<char>)
    ensures
        final(out)@ == old(out)@ + extra@,
{
    let mut i: usize = 0;
    while i < extra.len()
        invariant
            i <= extra.len(),
            out@ == old(out)@ + extra@.take(i as int),
        decreases extra.len() - i,
    {
        out.push(extra[i]);
        i = i + 1;
        assert(out@ =~= old(out)@ + extra@.take(i as int));
    }
    assert(extra@.take(extra.len() as int) =~= extra@);
}

pub fn append_str(out: &mut Vec<char>, extra: &str)
    ensures
        final(out)@ == old(out)@ + extra@,
{
    let e = chars_of(extra);
    append_chars(out, &e);
}

pub fn copy_chars(v: &Vec<char>) -> (r: Vec<char>)
    ensures
        r@ == v@,
{
    let mut r: Vec<char> = Vec::new();
    append_chars(&mut r, v);
    assert(r@ =~= v@);
    r
}

pub fn slice_chars(v: &Vec<char>, start: usize, end: usize) -> (r: Vec<char>)
    requires
        start <= end <= v.len(),
    ensures
        r@ == v@.subrange(start as int, end as int),
{
    let mut r: Vec<char> = Vec::new();
    let mut i = start;
    while i < end
        invariant
            start <= i <= end <= v.len(),
            r@ == v@.subrange(start as int, i as int),
        decreases end - i,
    {
        r.push(v[i]);
        i = i + 1;
        assert(r@ =~= v@.subrange(start as int, i as int));
    }
    r
}

pub fn chars_eq(a: &Vec<char>, b: &Vec<char>) -> (r: bool)
    ensures
        r == (a@ == b@),
{
    if a.len() != b.len() {
        return false;
    }
    let mut i: usize = 0;
    while i < a.len()
        invariant
            a.len() == b.len(),
            i <= a.len(),
            a@.take(i as int) == b@.take(i as int),
        decreases a.len() - i,
    {
        if a[i] != b[i] {
            return false;
        }
        assert(a@.take(i + 1) =~= a@.take(i as int).push(a@[i as int]));
        assert(b@.take(i + 1) =~= b@.take(i as int).push(b@[i as int]));
        i = i + 1;
    }
    assert(a@ =~= a@.take(a.len() as int));
    assert(b@ =~= b@.take(b.len() as int));
    true
}

/// Compares a character buffer with a string's characters.
pub fn chars_eq_str(a: &Vec<char>, b: &str) -> (r: bool)
    ensures
        r == (a@ == b@),
{
    let bv = chars_of(b);
    chars_eq(a, &bv)
}

// ---------------------------------------------------------------------------
// Searching
// ---------------------------------------------------------------------------

pub open spec fn occurs_at(h: Seq<char>, n: Seq<char>, i: int) -> bool {
    0 <= i && i + n.len() <= h.len() && h.subrange(i, i + n.len()) == n
}

/// `str::contains` with a string pattern.
pub open spec fn contains(h: Seq<char>, n: Seq<char>) -> bool {
    exists|i: int| #[trigger] occurs_at(h, n, i)
}

pub open spec fn starts_with(h: Seq<char>, p: Seq<char>) -> bool {
    p.len() <= h.len() && h.take(p.len() as int) == p
}

pub open spec fn ends_with(h: Seq<char>, p: Seq<char>) -> bool {
    p.len() <= h.len() && h.skip(h.len() - p.len()) == p
}

/// The index of the first occurrence of `n` in `h`, as `str::find` answers it.
pub open spec fn find_first(h: Seq<char>, n: Seq<char>) -> Option<int> {
    if contains(h, n) {
        Some(choose|i: int| occurs_at(h, n, i) && forall|j: int| 0 <= j < i ==> !occurs_at(h, n, j))
    } else {
        None
    }
}

/// `true` where `n` occurs at `i` and nowhere earlier.
pub open spec fn first_occurrence(h: Seq<char>, n: Seq<char>, i: int) -> bool {
    occurs_at(h, n, i) && forall|j: int| 0 <= j < i ==> !#[trigger] occurs_at(h, n, j)
}

pub open spec fn last_occurrence(h: Seq<char>, n: Seq<char>, i: int) -> bool {
    occurs_at(h, n, i) && forall|j: int| i < j ==> !#[trigger] occurs_at(h, n, j)
}

pub fn matches_at(h: &Vec<char>, n: &Vec<char>, i: usize) -> (r: bool)
    ensures
        r == occurs_at(h@, n@, i as int),
{
    if i > h.len() || n.len() > h.len() - i {
        return false;
    }
    let mut j: usize = 0;
    while j < n.len()
        invariant
            i + n.len() <= h.len(),
            j <= n.len(),
            h@.subrange(i as int, i + j) == n@.take(j as int),
        decreases n.len() - j,
    {
        if h[i + j] != n[j] {
            assert(h@.subrange(i as int, i + n.len())[j as int] != n@[j as int]);
            return false;
        }
        assert(h@.subrange(i as int, i + j + 1) =~= h@.subrange(i as int, i + j).push(h@[i + j]));
        assert(n@.take(j + 1) =~= n@.take(j as int).push(n@[j as int]));
        j = j + 1;
    }
    assert(n@.take(n.len() as int) =~= n@);
    true
}

/// Index of the first occurrence of `n` in `h`.
pub fn find_chars(h: &Vec<char>, n: &Vec<char>) -> (r: Option<usize>)
    ensures
        match r {
            Some(i) => first_occurrence(h@, n@, i as int),
            None => !contains(h@, n@),
        },
{
    let mut i: usize = 0;
    while i < h.len()
        invariant
            i <= h.len(),
            forall|j: int| 0 <= j < i ==> !#[trigger] occurs_at(h@, n@, j),
        decreases h.len() - i,
    {
        if matches_at(h, n, i) {
            return Some(i);
        }
        i = i + 1;
    }
    if matches_at(h, n, h.len()) {
        return Some(h.len());
    }
    assert forall|j: int| !#[trigger] occurs_at(h@, n@, j) by {
        if 0 <= j && j < i {
        } else {
        }
    }
    None
}

/// Index of the last occurrence of `n` in `h`.
pub fn rfind_chars(h: &Vec<char>, n: &Vec<char>) -> (r: Option<usize>)
    ensures
        match r {
            Some(i) => last_occurrence(h@, n@, i as int),
            None => !contains(h@, n@),
        },
{
    if matches_at(h, n, h.len()) {
        return Some(h.len());
    }
    let mut k: usize = h.len();
    while k > 0
        invariant
            k <= h.len(),
            forall|j: int| k <= j ==> !#[trigger] occurs_at(h@, n@, j),
        decreases k,
    {
        if matches_at(h, n, k - 1) {
            return Some(k - 1);
        }
        k = k - 1;
    }
    None
}

pub fn contains_chars(h: &Vec<char>, n: &Vec<char>) -> (r: bool)
    ensures
        r == contains(h@, n@),
{
    match find_chars(h, n) {
        Some(i) => {
            assert(occurs_at(h@, n@, i as int));
            true
        },
        None => false,
    }
}

pub fn contains_str(h: &Vec<char>, n: &str) -> (r: bool)
    ensures
        r == contains(h@, n@),
{
    let nv = chars_of(n);
    contains_chars(h, &nv)
}

pub fn starts_with_chars(h: &Vec<char>, p: &Vec<char>) -> (r: bool)
    ensures
        r == starts_with(h@, p@),
{
    let r = matches_at(h, p, 0);
    assert(h@.take(p@.len() as int) =~= h@.subrange(0, p@.len() as int));
    r
}

pub fn starts_with_str(h: &Vec<char>, p: &str) -> (r: bool)
    ensures
        r == starts_with(h@, p@),
{
    let pv = chars_of(p);
    starts_with_chars(h, &pv)
}

pub fn ends_with_chars(h: &Vec<char>, p: &Vec<char>) -> (r: bool)
    ensures
        r == ends_with(h@, p@),
{
    if p.len() > h.len() {
        return false;
    }
    let r = matches_at(h, p, h.len() - p.len());
    assert(h@.skip(h@.len() - p@.len()) =~= h@.subrange(h@.len() - p@.len(), h@.len() as int));
    r
}

pub fn ends_with_str(h: &Vec<char>, p: &str) -> (r: bool)
    ensures
        r == ends_with(h@, p@),
{
    let pv = chars_of(p);
    ends_with_chars(h, &pv)
}

pub fn starts_with_char(h: &Vec<char>, c: char) -> (r: bool)
    ensures
        r == (h@.len() > 0 && h@[0] == c),
{
    h.len() > 0 && h[0] == c
}

pub fn ends_with_char(h: &Vec<char>, c: char) -> (r: bool)
    ensures
        r == (h@.len() > 0 && h@.last() == c),
{
    h.len() > 0 && h[h.len() - 1] == c
}

// ---------------------------------------------------------------------------
// Trimming
// ---------------------------------------------------------------------------

/// The character classes that the trimming operations strip.
#[derive(Clone, Copy, PartialEq, Eq, Debug)]
pub enum CharSet {
    /// `char::is_whitespace`.
    Whitespace,
    /// `.`, `!`, `?`, `"` and `'`.
    FactPunctuation,
    /// `"` alone.
    DoubleQuote,
    /// White space, or one of `-`, `—`, `:`, `;`, `,`, `.`.
    Separator,
}

pub open spec fn in_set(set: CharSet, c: char) -> bool {
    match set {
        CharSet::Whitespace => is_ws(c),
        CharSet::FactPunctuation => c == '.' || c == '!' || c == '?' || c == '"' || c == '\'',
        CharSet::DoubleQuote => c == '"',
        CharSet::Separator => is_ws(c) || c == '-' || c == '\u{2014}' || c == ':' || c == ';'
            || c == ',' || c == '.',
    }
}

pub fn in_set_char(set: CharSet, c: char) -> (r: bool)
    ensures
        r == in_set(set, c),
{
    match set {
        CharSet::Whitespace => is_whitespace_char(c),
        CharSet::FactPunctuation => c == '.' || c == '!' || c == '?' || c == '"' || c == '\'',
        CharSet::DoubleQuote => c == '"',
        CharSet::Separator => is_whitespace_char(c) || c == '-' || c == '\u{2014}' || c == ':'
            || c == ';' || c == ',' || c == '.',
    }
}

/// Drops leading characters of `set` (`str::trim_start_matches`).
pub open spec fn trim_start_set(s: Seq<char>, set: CharSet) -> Seq<char>
    decreases s.len(),
{
    if s.len() > 0 && in_set(set, s[0]) {
        trim_start_set(s.drop_first(), set)
    } else {
        s
    }
}

/// Drops trailing characters of `set` (`str::trim_end_matches`).
pub open spec fn trim_end_set(s: Seq<char>, set: CharSet) -> Seq<char>
    decreases s.len(),
{
    if s.len() > 0 && in_set(set, s.last()) {
        trim_end_set(s.drop_last(), set)
    } else {
        s
    }
}

/// Drops characters of `set` from both ends (`str::trim_matches`).
pub open spec fn trim_set(s: Seq<char>, set: CharSet) -> Seq<char> {
    trim_end_set(trim_start_set(s, set), set)
}

/// `str::trim`.
pub open spec fn trim(s: Seq<char>) -> Seq<char> {
    trim_set(s, CharSet::Whitespace)
}

pub proof fn lemma_trim_start_skip(s: Seq<char>, set: CharSet, i: int)
    requires
        0 <= i <= s.len(),
        forall|k: int| 0 <= k < i ==> in_set(set, #[trigger] s[k]),
        i < s.len() ==> !in_set(set, s[i]),
    ensures
        trim_start_set(s, set) == s.skip(i),
    decreases i,
{
    if i == 0 {
        assert(s.skip(0) =~= s);
    } else {
        let t = s.drop_first();
        assert forall|k: int| 0 <= k < i - 1 implies in_set(set, #[trigger] t[k]) by {
            assert(t[k] == s[k + 1]);
        }
        if i - 1 < t.len() {
            assert(t[i - 1] == s[i]);
        }
        lemma_trim_start_skip(t, set, i - 1);
        assert(t.skip(i - 1) =~= s.skip(i));
    }
}

/// Dropping leading characters of a set leaves the text from some point on.
pub proof fn lemma_trim_start_set_skips(s: Seq<char>, set: CharSet)
    ensures
        exists|i: int| 0 <= i <= s.len() && trim_start_set(s, set) == #[trigger] s.skip(i),
    decreases s.len(),
{
    if s.len() > 0 && in_set(set, s[0]) {
        let t = s.drop_first();
        lemma_trim_start_set_skips(t, set);
        let i = choose|i: int| 0 <= i <= t.len() && trim_start_set(t, set) == #[trigger] t.skip(i);
        assert(t.skip(i) =~= s.skip(i + 1));
    } else {
        assert(s.skip(0) =~= s);
    }
}

pub proof fn lemma_trim_end_take(s: Seq<char>, set: CharSet, j: int)
    requires
        0 <= j <= s.len(),
        forall|k: int| j <= k < s.len() ==> in_set(set, #[trigger] s[k]),
        j > 0 ==> !in_set(set, s[j - 1]),
    ensures
        trim_end_set(s, set) == s.take(j),
    decreases s.len() - j,
{
    if j == s.len() {
        assert(s.take(j) =~= s);
    } else {
        let t = s.drop_last();
        assert(in_set(set, s.last()));
        assert forall|k: int| j <= k < t.len() implies in_set(set, #[trigger] t[k]) by {
            assert(t[k] == s[k]);
        }
        if j > 0 {
            assert(t[j - 1] == s[j - 1]);
        }
        lemma_trim_end_take(t, set, j);
        assert(t.take(j) =~= s.take(j));
    }
}

pub fn trim_start_set_chars(v: &Vec<char>, set: CharSet) -> (r: Vec<char>)
    ensures
        r@ == trim_start_set(v@, set),
{
    let mut i: usize = 0;
    while i < v.len() && in_set_char(set, v[i])
        invariant
            i <= v.len(),
            forall|k: int| 0 <= k < i ==> in_set(set, #[trigger] v@[k]),
        decreases v.len() - i,
    {
        i = i + 1;
    }
    proof {
        lemma_trim_start_skip(v@, set, i as int);
    }
    let r = slice_chars(v, i, v.len());
    assert(r@ =~= v@.skip(i as int));
    r
}

pub fn trim_end_set_chars(v: &Vec<char>, set: CharSet) -> (r: Vec<char>)
    ensures
        r@ == trim_end_set(v@, set),
{
    let mut j: usize = v.len();
    while j > 0 && in_set_char(set, v[j - 1])
        invariant
            j <= v.len(),
            forall|k: int| j <= k < v.len() ==> in_set(set, #[trigger] v@[k]),
        decreases j,
    {
        j = j - 1;
    }
    proof {
        lemma_trim_end_take(v@, set, j as int);
    }
    let r = slice_chars(v, 0, j);
    assert(r@ =~= v@.take(j as int));
    r
}

pub fn trim_set_chars(v: &Vec<char>, set: CharSet) -> (r: Vec<char>)
    ensures
        r@ == trim_set(v@, set),
{
    let a = trim_start_set_chars(v, set);
    trim_end_set_chars(&a, set)
}

pub fn trim_chars(v: &Vec<char>) -> (r: Vec<char>)
    ensures
        r@ == trim(v@),
{
    trim_set_chars(v, CharSet::Whitespace)
}

/// `s.trim().is_empty()`: every character is white space.
pub proof fn lemma_trim_empty(s: Seq<char>)
    ensures
        (trim(s).len() == 0) <==> (forall|k: int| 0 <= k < s.len() ==> is_ws(#[trigger] s[k])),
    decreases s.len(),
{
    if s.len() > 0 {
        if is_ws(s[0]) {
            lemma_trim_empty(s.drop_first());
            assert forall|k: int| 0 <= k < s.drop_first().len() implies #[trigger] s.drop_first()[k]
                == s[k + 1] by {}
            if forall|k: int| 0 <= k < s.len() ==> is_ws(#[trigger] s[k]) {
                assert forall|k: int| 0 <= k < s.drop_first().len() implies is_ws(
                    #[trigger] s.drop_first()[k],
                ) by {
                    assert(s.drop_first()[k] == s[k + 1]);
                }
            } else {
                let k = choose|k: int| 0 <= k < s.len() && !is_ws(#[trigger] s[k]);
                assert(s.drop_first()[k - 1] == s[k]);
            }
        } else {
            lemma_trim_end_nonempty(s);
        }
    }
}

/// Trimming the end keeps a first character that is not white space.
pub proof fn lemma_trim_end_nonempty(s: Seq<char>)
    requires
        s.len() > 0,
        !is_ws(s[0]),
    ensures
        trim_end_set(s, CharSet::Whitespace).len() > 0,
    decreases s.len(),
{
    if is_ws(s.last()) {
        lemma_trim_end_nonempty(s.drop_last());
    }
}

pub fn is_blank(v: &Vec<char>) -> (r: bool)
    ensures
        r == (trim(v@).len() == 0),
{
    proof {
        lemma_trim_empty(v@);
    }
    let mut i: usize = 0;
    while i < v.len()
        invariant
            i <= v.len(),
            forall|k: int| 0 <= k < i ==> is_ws(#[trigger] v@[k]),
        decreases v.len() - i,
    {
        if !is_whitespace_char(v[i]) {
            proof {
                lemma_trim_empty(v@);
            }
            assert(!is_ws(v@[i as int]));
            return false;
        }
        i = i + 1;
    }
    true
}

pub fn is_blank_str(s: &str) -> (r: bool)
    ensures
        r == (trim(s@).len() == 0),
{
    let v = chars_of(s);
    is_blank(&v)
}

// ---------------------------------------------------------------------------
// Words
// ---------------------------------------------------------------------------

/// The maximal runs of non-white-space characters, in order (`str::split_whitespace`).
/// Defined by the last character: white space ends nothing new, a character that
/// follows a non-white-space character extends the last word, any other starts one.
pub open spec fn words(s: Seq<char>) -> Seq<Seq<char>>
    decreases s.len(),
{
    if s.len() == 0 {
        Seq::empty()
    } else {
        let w = words(s.drop_last());
        let c = s.last();
        if is_ws(c) {
            w
        } else if s.len() > 1 && !is_ws(s[s.len() - 2]) {
            w.update(w.len() - 1, w.last().push(c))
        } else {
            w.push(seq![c])
        }
    }
}

/// `parts.join(sep)`.
pub open spec fn join(parts: Seq<Seq<char>>, sep: Seq<char>) -> Seq<char>
    decreases parts.len(),
{
    if parts.len() == 0 {
        Seq::empty()
    } else if parts.len() == 1 {
        parts[0]
    } else {
        join(parts.drop_last(), sep) + sep + parts.last()
    }
}

/// `s.split_whitespace().collect::<Vec<_>>().join(" ")`.
pub open spec fn collapse_ws(s: Seq<char>) -> Seq<char> {
    join(words(s), seq![' '])
}

pub open spec fn seqs_of(v: Seq<Vec<char>>) -> Seq<Seq<char>> {
    v.map_values(|w: Vec<char>| w@)
}

/// A word of letters and digits: not empty, every character alphanumeric and
/// none of them white space.
pub open spec fn alnum_word(w: Seq<char>) -> bool {
    &&& w.len() > 0
    &&& forall|j: int| 0 <= j < w.len() ==> spec_is_alphanumeric(#[trigger] w[j]) && !is_ws(w[j])
}

/// Where every character is alphanumeric or white space, every word is a word
/// of letters and digits.
pub proof fn lemma_words_alnum(s: Seq<char>)
    requires
        forall|k: int| 0 <= k < s.len() ==> spec_is_alphanumeric(#[trigger] s[k]) || is_ws(s[k]),
    ensures
        forall|i: int| 0 <= i < words(s).len() ==> alnum_word(#[trigger] words(s)[i]),
    decreases s.len(),
{
    if s.len() > 0 {
        let pre = s.drop_last();
        assert forall|k: int| 0 <= k < pre.len() implies spec_is_alphanumeric(#[trigger] pre[k]) || is_ws(pre[k]) by {
            assert(pre[k] == s[k]);
        }
        lemma_words_alnum(pre);
        let w = words(pre);
        let c = s.last();
        assert(spec_is_alphanumeric(s[s.len() - 1]) || is_ws(s[s.len() - 1]));
        if is_ws(c) {
        } else if s.len() > 1 && !is_ws(s[s.len() - 2]) {
            assert(pre.last() == s[s.len() - 2]);
            lemma_words_nonempty(pre);
            let last = w.last().push(c);
            assert(alnum_word(w[w.len() - 1]));
            assert forall|j: int| 0 <= j < last.len() implies spec_is_alphanumeric(#[trigger] last[j]) && !is_ws(last[j]) by {
                if j < last.len() - 1 {
                    assert(last[j] == w[w.len() - 1][j]);
                }
            }
            assert(alnum_word(last));
            assert forall|i: int| 0 <= i < words(s).len() implies alnum_word(#[trigger] words(s)[i]) by {
                if i < w.len() - 1 {
                    assert(words(s)[i] == w[i]);
                }
            }
        } else {
            let nw = seq![c];
            assert(alnum_word(nw));
            assert forall|i: int| 0 <= i < words(s).len() implies alnum_word(#[trigger] words(s)[i]) by {
                if i < w.len() {
                    assert(words(s)[i] == w[i]);
                }
            }
        }
    }
}

/// A word whose characters all satisfy `p`: not empty, and no character of
/// it white space.
pub open spec fn word_of(w: Seq<char>, p: spec_fn(char) -> bool) -> bool {
    &&& w.len() > 0
    &&& forall|j: int| 0 <= j < w.len() ==> p(#[trigger] w[j]) && !is_ws(w[j])
}

/// Where every character satisfies `p` or is white space, every word is a
/// word of characters satisfying `p`.
pub proof fn lemma_words_keep(s: Seq<char>, p: spec_fn(char) -> bool)
    requires
        forall|k: int| 0 <= k < s.len() ==> p(#[trigger] s[k]) || is_ws(s[k]),
    ensures
        forall|i: int| 0 <= i < words(s).len() ==> word_of(#[trigger] words(s)[i], p),
    decreases s.len(),
{
    if s.len() > 0 {
        let pre = s.drop_last();
        assert forall|k: int| 0 <= k < pre.len() implies p(#[trigger] pre[k]) || is_ws(pre[k]) by {
            assert(pre[k] == s[k]);
        }
        lemma_words_keep(pre, p);
        let w = words(pre);
        let c = s.last();
        assert(p(s[s.len() - 1]) || is_ws(s[s.len() - 1]));
        if is_ws(c) {
        } else if s.len() > 1 && !is_ws(s[s.len() - 2]) {
            assert(pre.last() == s[s.len() - 2]);
            lemma_words_nonempty(pre);
            let last = w.last().push(c);
            assert(word_of(w[w.len() - 1], p));
            assert forall|j: int| 0 <= j < last.len() implies p(#[trigger] last[j]) && !is_ws(last[j]) by {
                if j < last.len() - 1 {
                    assert(last[j] == w[w.len() - 1][j]);
                }
            }
            assert forall|i: int| 0 <= i < words(s).len() implies word_of(#[trigger] words(s)[i], p) by {
                if i < w.len() - 1 {
                    assert(words(s)[i] == w[i]);
                }
            }
        } else {
            let nw = seq![c];
            assert(word_of(nw, p));
            assert forall|i: int| 0 <= i < words(s).len() implies word_of(#[trigger] words(s)[i], p) by {
                if i < w.len() {
                    assert(words(s)[i] == w[i]);
                }
            }
        }
    }
}

/// Joining words of characters satisfying `p` with single spaces gives text
/// whose every character is a space or satisfies `p`.
pub proof fn lemma_join_keeps(parts: Seq<Seq<char>>, p: spec_fn(char) -> bool)
    requires
        forall|i: int| 0 <= i < parts.len() ==> word_of(#[trigger] parts[i], p),
    ensures
        forall|k: int| 0 <= k < join(parts, seq![' ']).len() ==> #[trigger] join(parts, seq![' '])[k] == ' ' || p(
            join(parts, seq![' '])[k],
        ),
    decreases parts.len(),
{
    let r = join(parts, seq![' ']);
    if parts.len() == 1 {
        assert(word_of(parts[0], p));
    } else if parts.len() > 1 {
        let pre = parts.drop_last();
        assert forall|i: int| 0 <= i < pre.len() implies word_of(#[trigger] pre[i], p) by {
            assert(pre[i] == parts[i]);
        }
        lemma_join_keeps(pre, p);
        let j = join(pre, seq![' ']);
        let l = parts.last();
        assert(word_of(parts[parts.len() - 1], p));
        assert(r == j + seq![' '] + l);
        let n = j.len() as int;
        assert forall|k: int| 0 <= k < r.len() implies #[trigger] r[k] == ' ' || p(r[k]) by {
            if k < n {
                assert(r[k] == j[k]);
            } else if k > n {
                assert(r[k] == l[k - n - 1]);
            }
        }
    }
}

/// A word with no white space in it.
pub open spec fn plain_word(w: Seq<char>) -> bool {
    &&& w.len() > 0
    &&& forall|j: int| 0 <= j < w.len() ==> !is_ws(#[trigger] w[j])
}

/// A word with no white space in it is its own only word.
pub proof fn lemma_words_of_plain(w: Seq<char>)
    requires
        plain_word(w),
    ensures
        words(w) == seq![w],
    decreases w.len(),
{
    let c = w.last();
    assert(!is_ws(w[w.len() - 1]));
    if w.len() == 1 {
        assert(w.drop_last() =~= Seq::<char>::empty());
        assert(words(w.drop_last()) =~= Seq::<Seq<char>>::empty());
        assert(seq![c] =~= w);
        assert(Seq::<Seq<char>>::empty().push(seq![c]) =~= seq![w]);
    } else {
        let pre = w.drop_last();
        assert forall|j: int| 0 <= j < pre.len() implies !is_ws(#[trigger] pre[j]) by {
            assert(pre[j] == w[j]);
        }
        lemma_words_of_plain(pre);
        assert(!is_ws(w[w.len() - 2]));
        assert(pre.push(c) =~= w);
        assert(seq![pre].update(0, pre.push(c)) =~= seq![w]);
    }
}

/// After a space, a word with no white space in it is one more word.
pub proof fn lemma_words_after_space(j: Seq<char>, w: Seq<char>)
    requires
        plain_word(w),
    ensures
        words(j + seq![' '] + w) == words(j).push(w),
    decreases w.len(),
{
    let s = j + seq![' '] + w;
    let c = w.last();
    assert(is_ws(' '));
    assert(!is_ws(w[w.len() - 1]));
    assert(s.last() == c);
    let js = j + seq![' '];
    assert(js.drop_last() =~= j);
    assert(words(js) == words(j));
    if w.len() == 1 {
        assert(s.drop_last() =~= js);
        assert(s[s.len() - 2] == ' ');
        assert(seq![c] =~= w);
    } else {
        let pre = w.drop_last();
        assert forall|k: int| 0 <= k < pre.len() implies !is_ws(#[trigger] pre[k]) by {
            assert(pre[k] == w[k]);
        }
        lemma_words_after_space(j, pre);
        assert(s.drop_last() =~= j + seq![' '] + pre);
        assert(s[s.len() - 2] == w[w.len() - 2]);
        assert(!is_ws(w[w.len() - 2]));
        assert(pre.push(c) =~= w);
        let prev = words(j).push(pre);
        assert(prev.update(prev.len() - 1, prev.last().push(c)) =~= words(j).push(w));
    }
}

/// Splitting single-spaced words into words gives them back.
pub proof fn lemma_words_of_join(parts: Seq<Seq<char>>)
    requires
        forall|i: int| 0 <= i < parts.len() ==> plain_word(#[trigger] parts[i]),
    ensures
        words(join(parts, seq![' '])) == parts,
    decreases parts.len(),
{
    if parts.len() == 0 {
        assert(words(Seq::<char>::empty()) =~= parts);
    } else if parts.len() == 1 {
        assert(plain_word(parts[0]));
        lemma_words_of_plain(parts[0]);
        assert(seq![parts[0]] =~= parts);
    } else {
        let pre = parts.drop_last();
        assert forall|i: int| 0 <= i < pre.len() implies plain_word(#[trigger] pre[i]) by {
            assert(pre[i] == parts[i]);
        }
        lemma_words_of_join(pre);
        assert(plain_word(parts[parts.len() - 1]));
        lemma_words_after_space(join(pre, seq![' ']), parts.last());
        assert(pre.push(parts.last()) =~= parts);
    }
}

/// Two spaces side by side at `k`.
pub open spec fn spaces_at(r: Seq<char>, k: int) -> bool {
    r[k] == ' ' && r[k + 1] == ' '
}

/// Text of single-spaced words of letters and digits: every character a space
/// or alphanumeric, no space at either end and no two spaces side by side.
pub open spec fn single_spaced_alnum(r: Seq<char>) -> bool {
    &&& forall|k: int| 0 <= k < r.len() ==> #[trigger] r[k] == ' ' || spec_is_alphanumeric(r[k])
    &&& r.len() > 0 ==> r[0] != ' ' && r[r.len() - 1] != ' '
    &&& forall|k: int| 0 <= k < r.len() - 1 ==> !#[trigger] spaces_at(r, k)
}

/// Joining words of letters and digits with single spaces gives single-spaced
/// text of letters and digits.
pub proof fn lemma_join_alnum_words(parts: Seq<Seq<char>>)
    requires
        forall|i: int| 0 <= i < parts.len() ==> alnum_word(#[trigger] parts[i]),
    ensures
        single_spaced_alnum(join(parts, seq![' '])),
        parts.len() > 0 ==> join(parts, seq![' ']).len() > 0,
    decreases parts.len(),
{
    let r = join(parts, seq![' ']);
    if parts.len() == 0 {
    } else if parts.len() == 1 {
        assert(alnum_word(parts[0]));
        assert(is_ws(' '));
        assert forall|k: int| 0 <= k < r.len() - 1 implies !#[trigger] spaces_at(r, k) by {
            assert(!is_ws(parts[0][k]));
        }
    } else {
        let pre = parts.drop_last();
        assert forall|i: int| 0 <= i < pre.len() implies alnum_word(#[trigger] pre[i]) by {
            assert(pre[i] == parts[i]);
        }
        lemma_join_alnum_words(pre);
        let j = join(pre, seq![' ']);
        let l = parts.last();
        assert(alnum_word(parts[parts.len() - 1]));
        assert(is_ws(' '));
        assert(r == j + seq![' '] + l);
        let n = j.len() as int;
        assert forall|k: int| 0 <= k < r.len() implies #[trigger] r[k] == ' ' || spec_is_alphanumeric(r[k]) by {
            if k < n {
                assert(r[k] == j[k]);
            } else if k > n {
                assert(r[k] == l[k - n - 1]);
            }
        }
        assert(r[0] == j[0]);
        assert(r[r.len() - 1] == l[l.len() - 1]);
        assert(!is_ws(l[l.len() - 1]));
        assert forall|k: int| 0 <= k < r.len() - 1 implies !#[trigger] spaces_at(r, k) by {
            if k < n - 1 {
                assert(r[k] == j[k] && r[k + 1] == j[k + 1]);
                assert(!spaces_at(j, k));
            } else if k == n - 1 {
                assert(r[k] == j[n - 1]);
            } else if k == n {
                assert(r[k + 1] == l[0]);
                assert(!is_ws(l[0]));
            } else {
                assert(r[k] == l[k - n - 1]);
                assert(!is_ws(l[k - n - 1]));
            }
        }
    }
}

pub proof fn lemma_words_nonempty(s: Seq<char>)
    requires
        s.len() > 0,
        !is_ws(s.last()),
    ensures
        words(s).len() > 0,
    decreases s.len(),
{
    if s.len() > 1 && !is_ws(s[s.len() - 2]) {
        assert(s.drop_last().last() == s[s.len() - 2]);
        lemma_words_nonempty(s.drop_last());
    }
}

pub fn split_words(v: &Vec<char>) -> (r: Vec<Vec<char>>)
    ensures
        seqs_of(r@) == words(v@),
{
    let mut ws: Vec<Vec<char>> = Vec::new();
    let mut i: usize = 0;
    assert(seqs_of(ws@) =~= words(v@.take(0)));
    while i < v.len()
        invariant
            i <= v.len(),
            seqs_of(ws@) == words(v@.take(i as int)),
        decreases v.len() - i,
    {
        let c = v[i];
        let ghost pre = v@.take(i as int);
        let ghost next = v@.take(i + 1);
        assert(next.drop_last() =~= pre);
        assert(next.last() == c);
        if is_whitespace_char(c) {
        } else if i > 0 && !is_whitespace_char(v[i - 1]) {
            assert(next[next.len() - 2] == v@[i - 1]);
            proof {
                assert(pre.last() == v@[i - 1]);
                lemma_words_nonempty(pre);
            }
            let mut last = ws.pop().unwrap();
            last.push(c);
            ws.push(last);
            assert(seqs_of(ws@) =~= words(next));
        } else {
            let mut nw: Vec<char> = Vec::new();
            nw.push(c);
            ws.push(nw);
            assert(seqs_of(ws@) =~= words(next));
        }
        i = i + 1;
    }
    assert(v@.take(v.len() as int) =~= v@);
    ws
}

pub fn join_chars(parts: &Vec<Vec<char>>, sep: &Vec<char>) -> (r: Vec<char>)
    ensures
        r@ == join(seqs_of(parts@), sep@),
{
    let mut out: Vec<char> = Vec::new();
    let mut k: usize = 0;
    assert(seqs_of(parts@).take(0) =~= Seq::<Seq<char>>::empty());
    while k < parts.len()
        invariant
            k <= parts.len(),
            out@ == join(seqs_of(parts@).take(k as int), sep@),
        decreases parts.len() - k,
    {
        let ghost next = seqs_of(parts@).take(k + 1);
        assert(next.drop_last() =~= seqs_of(parts@).take(k as int));
        assert(next.last() == parts@[k as int]@);
        if k > 0 {
            append_chars(&mut out, sep);
        }
        append_chars(&mut out, &parts[k]);
        proof {
            if k == 0 {
                assert(out@ =~= next[0]);
            }
        }
        k = k + 1;
    }
    assert(seqs_of(parts@).take(parts.len() as int) =~= seqs_of(parts@));
    out
}

/// White space runs collapsed to single spaces, ends dropped.
pub fn collapse_ws_chars(v: &Vec<char>) -> (r: Vec<char>)
    ensures
        r@ == collapse_ws(v@),
{
    let ws = split_words(v);
    let mut sep: Vec<char> = Vec::new();
    sep.push(' ');
    assert(sep@ =~= seq![' ']);
    join_chars(&ws, &sep)
}

/// The ellipsis that marks a shortened text.
pub open spec fn ellipsis() -> char {
    '\u{2026}'
}

/// `compact_text`: white space collapsed; beyond `limit` characters the text
/// keeps its first `limit - 1` characters and ends with an ellipsis.
pub open spec fn compact(s: Seq<char>, limit: nat) -> Seq<char> {
    if limit == 0 {
        Seq::empty()
    } else {
        let n = collapse_ws(s);
        if n.len() <= limit {
            n
        } else {
            n.take(limit - 1).push(ellipsis())
        }
    }
}

pub fn compact_chars(v: &Vec<char>, limit: usize) -> (r: Vec<char>)
    ensures
        r@ == compact(v@, limit as nat),
        r@.len() <= limit,
{
    if limit == 0 {
        return Vec::new();
    }
    let n = collapse_ws_chars(v);
    if n.len() <= limit {
        n
    } else {
        let mut t = slice_chars(&n, 0, limit - 1);
        t.push('\u{2026}');
        assert(t@ =~= n@.take(limit - 1).push(ellipsis()));
        t
    }
}

/// `compact_text` on a string.
pub fn compact_text(value: &str, limit: usize) -> (r: String)
    ensures
        r@ == compact(value@, limit as nat),
{
    let v = chars_of(value);
    let c = compact_chars(&v, limit);
    string_of(&c)
}


// ---------------------------------------------------------------------------
// ASCII case folding, pattern removal, byte search
// ---------------------------------------------------------------------------

/// `str::to_ascii_lowercase`.
pub open spec fn ascii_lower_seq(s: Seq<char>) -> Seq<char> {
    s.map_values(|c: char| ascii_lower(c))
}

pub fn ascii_lower_chars(v: &Vec<char>) -> (r: Vec<char>)
    ensures
        r@ == ascii_lower_seq(v@),
{
    let mut r: Vec<char> = Vec::new();
    let mut i: usize = 0;
    while i < v.len()
        invariant
            i <= v.len(),
            r@ == ascii_lower_seq(v@.take(i as int)),
        decreases v.len() - i,
    {
        let c = v[i];
        let l = if 'A' <= c && c <= 'Z' {
            ((c as u32) + 32) as u8 as char
        } else {
            c
        };
        assert(l == ascii_lower(c));
        r.push(l);
        i = i + 1;
        assert(r@ =~= ascii_lower_seq(v@.take(i as int)));
    }
    assert(v@.take(v.len() as int) =~= v@);
    r
}

/// `s.replace(pat, "")` for a non-empty pattern: occurrences are found from the
/// left and do not overlap.
pub open spec fn remove_all(s: Seq<char>, pat: Seq<char>) -> Seq<char>
    decreases s.len(),
{
    if pat.len() == 0 || s.len() < pat.len() {
        s
    } else if s.take(pat.len() as int) == pat {
        remove_all(s.skip(pat.len() as int), pat)
    } else {
        seq![s[0]] + remove_all(s.drop_first(), pat)
    }
}

pub fn remove_all_chars(v: &Vec<char>, pat: &Vec<char>) -> (r: Vec<char>)
    requires
        pat.len() > 0,
    ensures
        r@ == remove_all(v@, pat@),
{
    let mut out: Vec<char> = Vec::new();
    let mut i: usize = 0;
    assert(v@.skip(0) =~= v@);
    while i < v.len()
        invariant
            i <= v.len(),
            pat.len() > 0,
            out@ + remove_all(v@.skip(i as int), pat@) == remove_all(v@, pat@),
        decreases v.len() - i,
    {
        let ghost rest = v@.skip(i as int);
        if matches_at(v, pat, i) {
            assert(rest.take(pat@.len() as int) =~= v@.subrange(i as int, i + pat.len()));
            assert(rest.skip(pat@.len() as int) =~= v@.skip(i + pat.len()));
            i = i + pat.len();
        } else {
            proof {
                if rest.len() >= pat.len() {
                    assert(rest.take(pat@.len() as int) =~= v@.subrange(i as int, i + pat.len()));
                }
            }
            assert(rest.drop_first() =~= v@.skip(i + 1));
            out.push(v[i]);
            i = i + 1;
        }
    }
    assert(v@.skip(i as int) =~= Seq::<char>::empty());
    assert(out@ + Seq::<char>::empty() =~= out@);
    out
}

/// `true` where `n` occurs in `h` at byte offset `i`.
pub open spec fn bytes_occur_at(h: Seq<u8>, n: Seq<u8>, i: int) -> bool {
    0 <= i && i + n.len() <= h.len() && h.subrange(i, i + n.len()) == n
}

/// `true` where `n` occurs at `i` and at no earlier offset (what `str::find` answers).
pub open spec fn first_bytes_occurrence(h: Seq<u8>, n: Seq<u8>, i: int) -> bool {
    bytes_occur_at(h, n, i) && forall|j: int| 0 <= j < i ==> !#[trigger] bytes_occur_at(h, n, j)
}

pub fn bytes_match_at(h: &[u8], n: &[u8], i: usize) -> (r: bool)
    ensures
        r == bytes_occur_at(h@, n@, i as int),
{
    if i > h.len() || n.len() > h.len() - i {
        return false;
    }
    let mut j: usize = 0;
    while j < n.len()
        invariant
            i + n.len() <= h.len(),
            j <= n.len(),
            h@.subrange(i as int, i + j) == n@.take(j as int),
        decreases n.len() - j,
    {
        if h[i + j] != n[j] {
            assert(h@.subrange(i as int, i + n.len())[j as int] != n@[j as int]);
            return false;
        }
        assert(h@.subrange(i as int, i + j + 1) =~= h@.subrange(i as int, i + j).push(h@[i + j]));
        assert(n@.take(j + 1) =~= n@.take(j as int).push(n@[j as int]));
        j = j + 1;
    }
    assert(n@.take(n.len() as int) =~= n@);
    true
}

/// The byte offset of the first occurrence of `n` in `h`.
pub fn find_bytes(h: &[u8], n: &[u8]) -> (r: Option<usize>)
    ensures
        match r {
            Some(i) => first_bytes_occurrence(h@, n@, i as int),
            None => forall|j: int| !#[trigger] bytes_occur_at(h@, n@, j),
        },
{
    let mut i: usize = 0;
    while i < h.len()
        invariant
            i <= h.len(),
            forall|j: int| 0 <= j < i ==> !#[trigger] bytes_occur_at(h@, n@, j),
        decreases h.len() - i,
    {
        if bytes_match_at(h, n, i) {
            return Some(i);
        }
        i = i + 1;
    }
    if bytes_match_at(h, n, h.len()) {
        return Some(h.len());
    }
    assert forall|j: int| !#[trigger] bytes_occur_at(h@, n@, j) by {
        if 0 <= j && j < i {
        } else {
        }
    }
    None
}


/// The texts of a sequence of strings.
pub open spec fn strs_view(v: Seq<String>) -> Seq<Seq<char>> {
    v.map_values(|s: String| s@)
}

/// The first `n` parts, copied.
pub fn take_parts(parts: &Vec<Vec<char>>, n: usize) -> (r: Vec<Vec<char>>)
    ensures
        seqs_of(r@) == seqs_of(parts@).take(if n < parts.len() { n as int } else { parts.len() as int }),
{
    let end = if n < parts.len() { n } else { parts.len() };
    let mut r: Vec<Vec<char>> = Vec::new();
    let mut i: usize = 0;
    while i < end
        invariant
            i <= end <= parts.len(),
            seqs_of(r@) == seqs_of(parts@).take(i as int),
        decreases end - i,
    {
        let c = copy_chars(&parts[i]);
        assert(seqs_of(parts@)[i as int] == parts@[i as int]@);
        let ghost before = r@;
        r.push(c);
        assert(seqs_of(r@) =~= seqs_of(before).push(c@));
        i = i + 1;
        assert(seqs_of(r@) =~= seqs_of(parts@).take(i as int));
    }
    r
}

/// Each part as a `String`.
pub fn strings_of_parts(parts: &Vec<Vec<char>>) -> (r: Vec<String>)
    ensures
        strs_view(r@) == seqs_of(parts@),
{
    let mut r: Vec<String> = Vec::new();
    let mut i: usize = 0;
    while i < parts.len()
        invariant
            i <= parts.len(),
            strs_view(r@) == seqs_of(parts@).take(i as int),
        decreases parts.len() - i,
    {
        let s = string_of(&parts[i]);
        assert(seqs_of(parts@)[i as int] == parts@[i as int]@);
        let ghost before = r@;
        r.push(s);
        assert(strs_view(r@) =~= strs_view(before).push(s@));
        i = i + 1;
        assert(strs_view(r@) =~= seqs_of(parts@).take(i as int));
    }
    assert(seqs_of(parts@).take(parts.len() as int) =~= seqs_of(parts@));
    r
}

/// Each string's characters.
pub fn parts_of_strings(v: &Vec<String>) -> (r: Vec<Vec<char>>)
    ensures
        seqs_of(r@) == strs_view(v@),
{
    let mut r: Vec<Vec<char>> = Vec::new();
    let mut i: usize = 0;
    while i < v.len()
        invariant
            i <= v.len(),
            seqs_of(r@) == strs_view(v@).take(i as int),
        decreases v.len() - i,
    {
        let c = chars_of(v[i].as_str());
        assert(strs_view(v@)[i as int] == v@[i as int]@);
        let ghost before = r@;
        r.push(c);
        assert(seqs_of(r@) =~= seqs_of(before).push(c@));
        i = i + 1;
        assert(seqs_of(r@) =~= strs_view(v@).take(i as int));
    }
    assert(strs_view(v@).take(v.len() as int) =~= strs_view(v@));
    r
}


/// `s.replace(pat, rep)` for a non-empty pattern: occurrences are found from the
/// left, do not overlap, and each becomes `rep`.
pub open spec fn replace_all(s: Seq<char>, pat: Seq<char>, rep: Seq<char>) -> Seq<char>
    decreases s.len(),
{
    if pat.len() == 0 || s.len() < pat.len() {
        s
    } else if s.take(pat.len() as int) == pat {
        rep + replace_all(s.skip(pat.len() as int), pat, rep)
    } else {
        seq![s[0]] + replace_all(s.drop_first(), pat, rep)
    }
}

pub fn replace_all_chars(v: &Vec<char>, pat: &Vec<char>, rep: &Vec<char>) -> (r: Vec<char>)
    requires
        pat.len() > 0,
    ensures
        r@ == replace_all(v@, pat@, rep@),
{
    let mut out: Vec<char> = Vec::new();
    let mut i: usize = 0;
    assert(v@.skip(0) =~= v@);
    while i < v.len()
        invariant
            i <= v.len(),
            pat.len() > 0,
            out@ + replace_all(v@.skip(i as int), pat@, rep@) == replace_all(v@, pat@, rep@),
        decreases v.len() - i,
    {
        let ghost rest = v@.skip(i as int);
        if matches_at(v, pat, i) {
            assert(rest.take(pat@.len() as int) =~= v@.subrange(i as int, i + pat.len()));
            assert(rest.skip(pat@.len() as int) =~= v@.skip(i + pat.len()));
            let ghost before = out@;
            append_chars(&mut out, rep);
            assert(out@ + replace_all(v@.skip(i + pat.len()), pat@, rep@) =~= before + (rep@
                + replace_all(v@.skip(i + pat.len()), pat@, rep@)));
            i = i + pat.len();
        } else {
            proof {
                if rest.len() >= pat.len() {
                    assert(rest.take(pat@.len() as int) =~= v@.subrange(i as int, i + pat.len()));
                }
            }
            assert(rest.drop_first() =~= v@.skip(i + 1));
            out.push(v[i]);
            i = i + 1;
        }
    }
    assert(v@.skip(i as int) =~= Seq::<char>::empty());
    assert(out@ + Seq::<char>::empty() =~= out@);
    out
}

/// Every occurrence of `from` replaced by `to`.
pub open spec fn replace_char(s: Seq<char>, from: char, to: char) -> Seq<char> {
    s.map_values(|c: char| if c == from { to } else { c })
}

pub fn replace_char_chars(v: &Vec<char>, from: char, to: char) -> (r: Vec<char>)
    ensures
        r@ == replace_char(v@, from, to),
{
    let mut r: Vec<char> = Vec::new();
    let mut i: usize = 0;
    while i < v.len()
        invariant
            i <= v.len(),
            r@ == replace_char(v@.take(i as int), from, to),
        decreases v.len() - i,
    {
        let c = v[i];
        r.push(if c == from { to } else { c });
        i = i + 1;
        assert(r@ =~= replace_char(v@.take(i as int), from, to));
    }
    assert(v@.take(v.len() as int) =~= v@);
    r
}

/// The characters that are alphanumeric or white space, in order.
pub open spec fn keep_word_chars(s: Seq<char>) -> Seq<char>
    decreases s.len(),
{
    if s.len() == 0 {
        s
    } else {
        let rest = keep_word_chars(s.drop_last());
        if spec_is_alphanumeric(s.last()) || is_ws(s.last()) {
            rest.push(s.last())
        } else {
            rest
        }
    }
}

pub fn keep_word_chars_chars(v: &Vec<char>) -> (r: Vec<char>)
    ensures
        r@ == keep_word_chars(v@),
{
    let mut r: Vec<char> = Vec::new();
    let mut i: usize = 0;
    while i < v.len()
        invariant
            i <= v.len(),
            r@ == keep_word_chars(v@.take(i as int)),
        decreases v.len() - i,
    {
        let c = v[i];
        assert(v@.take(i + 1).drop_last() =~= v@.take(i as int));
        if is_alphanumeric_char(c) || is_whitespace_char(c) {
            r.push(c);
        }
        i = i + 1;
    }
    assert(v@.take(v.len() as int) =~= v@);
    r
}

/// The decimal digits of `n`.
pub open spec fn decimal(n: nat) -> Seq<char>
    decreases n,
{
    if n < 10 {
        seq![digit_char((n % 10) as nat)]
    } else {
        decimal(n / 10).push(digit_char((n % 10) as nat))
    }
}

pub open spec fn digit_char(d: nat) -> char {
    if d == 0 { '0' } else if d == 1 { '1' } else if d == 2 { '2' } else if d == 3 { '3' }
    else if d == 4 { '4' } else if d == 5 { '5' } else if d == 6 { '6' } else if d == 7 { '7' }
    else if d == 8 { '8' } else { '9' }
}

fn digit(d: u64) -> (c: char)
    requires
        d < 10,
    ensures
        c == digit_char(d as nat),
{
    if d == 0 { '0' } else if d == 1 { '1' } else if d == 2 { '2' } else if d == 3 { '3' }
    else if d == 4 { '4' } else if d == 5 { '5' } else if d == 6 { '6' } else if d == 7 { '7' }
    else if d == 8 { '8' } else { '9' }
}

/// Appends the decimal digits of `n`.
pub fn append_decimal(out: &mut Vec<char>, n: u64)
    ensures
        final(out)@ == old(out)@ + decimal(n as nat),
    decreases n,
{
    if n < 10 {
        out.push(digit(n));
        assert(decimal(n as nat) =~= seq![digit_char(n as nat)]);
    } else {
        append_decimal(out, n / 10);
        out.push(digit(n % 10));
        assert(old(out)@ + decimal(n as nat) =~= old(out)@ + decimal((n / 10) as nat) + seq![
            digit_char((n % 10) as nat),
        ]);
    }
}


pub proof fn lemma_find_first_is(h: Seq<char>, n: Seq<char>, i: int)
    requires
        first_occurrence(h, n, i),
    ensures
        find_first(h, n) == Some(i),
{
    assert(occurs_at(h, n, i));
    let k = choose|k: int| occurs_at(h, n, k) && forall|j: int| 0 <= j < k ==> !occurs_at(h, n, j);
    assert(occurs_at(h, n, k) && forall|j: int| 0 <= j < k ==> !occurs_at(h, n, j));
    if k < i {
        assert(!occurs_at(h, n, k));
    } else if i < k {
        assert(!occurs_at(h, n, i));
    }
}


/// A text that neither starts nor ends with white space is its own trim.
pub proof fn lemma_trim_unchanged(s: Seq<char>)
    requires
        s.len() > 0 ==> !is_ws(s[0]) && !is_ws(s.last()),
    ensures
        trim(s) == s,
{
    assert(trim_start_set(s, CharSet::Whitespace) == s);
    assert(trim_end_set(s, CharSet::Whitespace) == s);
}


// ---------------------------------------------------------------------------
// Ordering
// ---------------------------------------------------------------------------

/// Strict lexicographic order of character sequences (by code point, which
/// is also the byte order of their UTF-8 text).
pub open spec fn chars_lt(x: Seq<char>, y: Seq<char>) -> bool
    decreases x.len(),
{
    if y.len() == 0 {
        false
    } else if x.len() == 0 {
        true
    } else if x[0] != y[0] {
        (x[0] as u32) < (y[0] as u32)
    } else {
        chars_lt(x.drop_first(), y.drop_first())
    }
}

pub fn str_lt(x: &str, y: &str) -> (r: bool)
    ensures
        r == chars_lt(x@, y@),
{
    let a = chars_of(x);
    let b = chars_of(y);
    assert(a@.skip(0) =~= a@);
    assert(b@.skip(0) =~= b@);
    let mut i: usize = 0;
    while i < a.len() && i < b.len()
        invariant
            i <= a.len(),
            i <= b.len(),
            chars_lt(a@.skip(i as int), b@.skip(i as int)) == chars_lt(x@, y@),
        decreases a.len() - i,
    {
        let ca = a[i];
        let cb = b[i];
        assert(a@.skip(i as int)[0] == ca);
        assert(b@.skip(i as int)[0] == cb);
        if ca != cb {
            return (ca as u32) < (cb as u32);
        }
        assert(a@.skip(i as int).drop_first() =~= a@.skip(i + 1));
        assert(b@.skip(i as int).drop_first() =~= b@.skip(i + 1));
        i = i + 1;
    }
    i < b.len()
}


/// The text of an optional string.
pub open spec fn opt_seq(o: Option<String>) -> Option<Seq<char>> {
    match o {
        Some(s) => Some(s@),
        None => None,
    }
}

} // verus!
