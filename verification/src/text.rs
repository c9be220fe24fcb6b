//! Character sequences: classes of characters, runs, trimming and searching.
//!
//! Every function here works on a slice of `char` and is specified over the
//! `Seq<char>` that the slice holds.

use vstd::prelude::*;

verus! {

/// Whether `c` is Unicode white space (`White_Space`).
pub open spec fn is_space(c: char) -> bool {
    let u = c as u32;
    ||| 0x09 <= u <= 0x0d
    ||| u == 0x20
    ||| u == 0x85
    ||| u == 0xa0
    ||| u == 0x1680
    ||| 0x2000 <= u <= 0x200a
    ||| u == 0x2028
    ||| u == 0x2029
    ||| u == 0x202f
    ||| u == 0x205f
    ||| u == 0x3000
}

/// Whether `c` is one of the ten ASCII digits.
pub open spec fn is_digit(c: char) -> bool {
    '0' <= c <= '9'
}

/// A class of characters, used to delimit runs.
#[derive(Clone, Copy)]
pub enum CharSet {
    /// Unicode white space.
    Space,
    /// Everything but Unicode white space.
    NonSpace,
    /// ASCII digits.
    Digit,
    /// The one character given.
    Only(char),
    /// Every character but the one given.
    Except(char),
    /// A space or a dash: what precedes a key in a list item.
    SpaceOrDash,
    /// `{`, `[`, `(` and the space: what follows the name on a line that opens a block.
    Opener,
    /// What continues a number once it has started: digits, `.`, `e`, `E`, `+`, `-`.
    NumberTail,
}

impl CharSet {
    /// Whether `c` belongs to the class.
    pub open spec fn has(self, c: char) -> bool {
        match self {
            CharSet::Space => is_space(c),
            CharSet::NonSpace => !is_space(c),
            CharSet::Digit => is_digit(c),
            CharSet::Only(x) => c == x,
            CharSet::Except(x) => c != x,
            CharSet::SpaceOrDash => c == ' ' || c == '-',
            CharSet::Opener => c == '{' || c == '[' || c == '(' || c == ' ',
            CharSet::NumberTail => is_digit(c) || c == '.' || c == 'e' || c == 'E' || c == '+'
                || c == '-',
        }
    }

    /// Tests `c` against the class.
    pub fn holds(&self, c: char) -> (b: bool)
        ensures
            b == self.has(c),
    {
        match self {
            CharSet::Space => char_is_space(c),
            CharSet::NonSpace => !char_is_space(c),
            CharSet::Digit => char_is_digit(c),
            CharSet::Only(x) => c == *x,
            CharSet::Except(x) => c != *x,
            CharSet::SpaceOrDash => c == ' ' || c == '-',
            CharSet::Opener => c == '{' || c == '[' || c == '(' || c == ' ',
            CharSet::NumberTail => char_is_digit(c) || c == '.' || c == 'e' || c == 'E' || c == '+'
                || c == '-',
        }
    }
}

/// Tests `c` for Unicode white space.
pub fn char_is_space(c: char) -> (b: bool)
    ensures
        b == is_space(c),
{
    let u: u32 = c as u32;
    (0x09 <= u && u <= 0x0d) || u == 0x20 || u == 0x85 || u == 0xa0 || u == 0x1680 || (0x2000 <= u
        && u <= 0x200a) || u == 0x2028 || u == 0x2029 || u == 0x202f || u == 0x205f || u == 0x3000
}

/// Tests `c` for an ASCII digit.
pub fn char_is_digit(c: char) -> (b: bool)
    ensures
        b == is_digit(c),
{
    '0' <= c && c <= '9'
}

/// The end of the longest run of characters of `set` that starts at `i`.
pub open spec fn span(s: Seq<char>, i: int, set: CharSet) -> int
    decreases s.len() - i,
{
    if 0 <= i < s.len() && set.has(s[i]) {
        span(s, i + 1, set)
    } else {
        i
    }
}

/// The start of the longest run of characters of `set` that ends before `j`.
pub open spec fn span_back(s: Seq<char>, j: int, set: CharSet) -> int
    decreases j,
{
    if 0 < j <= s.len() && set.has(s[j - 1]) {
        span_back(s, j - 1, set)
    } else {
        j
    }
}

/// `span` stops at the first character outside the class, and nowhere before.
pub proof fn lemma_span(s: Seq<char>, i: int, set: CharSet)
    requires
        0 <= i <= s.len(),
    ensures
        i <= span(s, i, set) <= s.len(),
        forall|k: int| i <= k < span(s, i, set) ==> set.has(#[trigger] s[k]),
        span(s, i, set) < s.len() ==> !set.has(s[span(s, i, set)]),
    decreases s.len() - i,
{
    if i < s.len() && set.has(s[i]) {
        lemma_span(s, i + 1, set);
    }
}

/// A position that ends a run of the class is where `span` stops.
pub proof fn lemma_span_is(s: Seq<char>, i: int, k: int, set: CharSet)
    requires
        0 <= i <= k <= s.len(),
        forall|j: int| i <= j < k ==> set.has(#[trigger] s[j]),
        k < s.len() ==> !set.has(s[k]),
    ensures
        span(s, i, set) == k,
    decreases k - i,
{
    if i < k {
        lemma_span_is(s, i + 1, k, set);
    }
}

/// `span_back` stops behind the last character outside the class, and nowhere after.
pub proof fn lemma_span_back(s: Seq<char>, j: int, set: CharSet)
    requires
        0 <= j <= s.len(),
    ensures
        0 <= span_back(s, j, set) <= j,
        forall|k: int| span_back(s, j, set) <= k < j ==> set.has(#[trigger] s[k]),
        span_back(s, j, set) > 0 ==> !set.has(s[span_back(s, j, set) - 1]),
    decreases j,
{
    if 0 < j && set.has(s[j - 1]) {
        lemma_span_back(s, j - 1, set);
    }
}

/// A run in a text that stands behind another text ends where it ends in
/// the text alone, moved by the length of what stands in front.
pub proof fn lemma_span_shift(pre: Seq<char>, s: Seq<char>, i: int, set: CharSet)
    requires
        0 <= i <= s.len(),
    ensures
        span(pre + s, pre.len() + i, set) == pre.len() + span(s, i, set),
    decreases s.len() - i,
{
    if i < s.len() {
        assert((pre + s)[pre.len() + i] == s[i]);
        if set.has(s[i]) {
            lemma_span_shift(pre, s, i + 1, set);
        }
    }
}

/// Finds the end of the run of `set` that starts at `i`.
pub fn skip_run(s: &[char], i: usize, set: CharSet) -> (k: usize)
    requires
        i <= s@.len(),
    ensures
        k == span(s@, i as int, set),
        i <= k <= s@.len(),
{
    let mut k: usize = i;
    while k < s.len() && set.holds(s[k])
        invariant
            i <= k <= s@.len(),
            span(s@, i as int, set) == span(s@, k as int, set),
        decreases s@.len() - k,
    {
        k += 1;
    }
    k
}

/// Finds the start of the run of `set` that ends before `j`.
pub fn skip_run_back(s: &[char], j: usize, set: CharSet) -> (k: usize)
    requires
        j <= s@.len(),
    ensures
        k == span_back(s@, j as int, set),
        k <= j,
{
    let mut k: usize = j;
    while k > 0 && set.holds(s[k - 1])
        invariant
            k <= j <= s@.len(),
            span_back(s@, j as int, set) == span_back(s@, k as int, set),
        decreases k,
    {
        k -= 1;
    }
    k
}

/// `s` without the characters of `set` at its start.
pub open spec fn trim_start_of(s: Seq<char>, set: CharSet) -> Seq<char> {
    s.skip(span(s, 0, set))
}

/// `s` without the characters of `set` at its end.
pub open spec fn trim_end_of(s: Seq<char>, set: CharSet) -> Seq<char> {
    s.take(span_back(s, s.len() as int, set))
}

/// `s` without the white space at its start.
pub open spec fn trim_start(s: Seq<char>) -> Seq<char> {
    trim_start_of(s, CharSet::Space)
}

/// `s` without the white space at its end.
pub open spec fn trim_end(s: Seq<char>) -> Seq<char> {
    trim_end_of(s, CharSet::Space)
}

/// `s` without the white space at either end.
pub open spec fn trim(s: Seq<char>) -> Seq<char> {
    trim_end(trim_start(s))
}

/// The white space that `s` starts with.
pub open spec fn indent_of(s: Seq<char>) -> Seq<char> {
    s.take(span(s, 0, CharSet::Space))
}

/// The white space that `s` ends with, behind what is left of `s` when the
/// white space at its start is taken away.
pub open spec fn tail_of(s: Seq<char>) -> Seq<char> {
    trim_start(s).skip(span_back(trim_start(s), trim_start(s).len() as int, CharSet::Space))
}

/// A text is the white space at its start, what trimming leaves of it, and
/// the white space at its end.
pub proof fn lemma_trim_parts(s: Seq<char>)
    ensures
        s == indent_of(s) + trim(s) + tail_of(s),
        indent_of(s).len() + trim(s).len() + tail_of(s).len() == s.len(),
{
    lemma_span(s, 0, CharSet::Space);
    let inner = trim_start(s);
    lemma_span_back(inner, inner.len() as int, CharSet::Space);
    assert(inner == trim(s) + tail_of(s));
    assert(s == indent_of(s) + inner);
}

/// The white space at the end of `s`.
pub fn trailing_space<'a>(s: &'a [char]) -> (r: &'a [char])
    ensures
        r@ == tail_of(s@),
{
    let inner = strip_start(s, CharSet::Space);
    let n = inner.len();
    let k = skip_run_back(inner, n, CharSet::Space);
    &inner[k..n]
}

/// Drops the characters of `set` from the start of `s`.
pub fn strip_start<'a>(s: &'a [char], set: CharSet) -> (r: &'a [char])
    ensures
        r@ == trim_start_of(s@, set),
{
    let k = skip_run(s, 0, set);
    &s[k..s.len()]
}

/// Drops the characters of `set` from the end of `s`.
pub fn strip_end<'a>(s: &'a [char], set: CharSet) -> (r: &'a [char])
    ensures
        r@ == trim_end_of(s@, set),
{
    let k = skip_run_back(s, s.len(), set);
    &s[0..k]
}

/// Drops the white space from both ends of `s`.
pub fn strip<'a>(s: &'a [char]) -> (r: &'a [char])
    ensures
        r@ == trim(s@),
{
    strip_end(strip_start(s, CharSet::Space), CharSet::Space)
}

/// The white space at the start of `s`.
pub fn leading_space<'a>(s: &'a [char]) -> (r: &'a [char])
    ensures
        r@ == indent_of(s@),
{
    let k = skip_run(s, 0, CharSet::Space);
    &s[0..k]
}

/// Whether `pat` stands in `s` at position `i`.
pub open spec fn matches_at(s: Seq<char>, i: int, pat: Seq<char>) -> bool {
    0 <= i && i + pat.len() <= s.len() && s.subrange(i, i + pat.len()) == pat
}

/// Whether `s` ends with `pat`.
pub open spec fn ends_with(s: Seq<char>, pat: Seq<char>) -> bool {
    matches_at(s, s.len() - pat.len(), pat)
}

/// The first position at or after `i` where `pat` stands in `s`.
pub open spec fn find_from(s: Seq<char>, pat: Seq<char>, i: int) -> Option<int>
    decreases s.len() + 1 - i,
{
    if i < 0 || i + pat.len() > s.len() {
        None
    } else if matches_at(s, i, pat) {
        Some(i)
    } else {
        find_from(s, pat, i + 1)
    }
}

/// The first position where `pat` stands in `s`.
pub open spec fn find(s: Seq<char>, pat: Seq<char>) -> Option<int> {
    find_from(s, pat, 0)
}

/// Whether `pat` stands anywhere in `s`.
pub open spec fn contains(s: Seq<char>, pat: Seq<char>) -> bool {
    find(s, pat) is Some
}

/// Whether `c` occurs in `s`.
pub open spec fn has_char(s: Seq<char>, c: char) -> bool {
    span(s, 0, CharSet::Except(c)) < s.len()
}

/// A match that `find_from` reports is a match, and lies in range.
pub proof fn lemma_find_from(s: Seq<char>, pat: Seq<char>, i: int)
    requires
        0 <= i,
    ensures
        find_from(s, pat, i) matches Some(k) ==> i <= k && matches_at(s, k, pat) && (forall|j: int|
            i <= j < k ==> !matches_at(s, j, pat)),
        find_from(s, pat, i) is None ==> forall|j: int| i <= j ==> !matches_at(s, j, pat),
    decreases s.len() + 1 - i,
{
    if i + pat.len() <= s.len() && !matches_at(s, i, pat) {
        lemma_find_from(s, pat, i + 1);
    }
}

/// Tests whether `pat` stands in `s` at `i`.
pub fn is_at(s: &[char], i: usize, pat: &[char]) -> (b: bool)
    ensures
        b == matches_at(s@, i as int, pat@),
{
    if i > s.len() || pat.len() > s.len() - i {
        return false;
    }
    let n = s.len();
    let mut k: usize = 0;
    while k < pat.len()
        invariant
            n == s@.len(),
            i + pat@.len() <= s@.len(),
            k <= pat@.len(),
            s@.subrange(i as int, i + k) == pat@.take(k as int),
        decreases pat@.len() - k,
    {
        if s[i + k] != pat[k] {
            assert(s@.subrange(i as int, i + pat@.len())[k as int] != pat@[k as int]);
            return false;
        }
        assert(s@.subrange(i as int, i + k + 1) == s@.subrange(i as int, i + k).push(s@[i + k]));
        assert(pat@.take(k + 1) == pat@.take(k as int).push(pat@[k as int]));
        k += 1;
    }
    assert(pat@.take(k as int) == pat@);
    true
}

/// Tests whether `s` ends with `pat`.
pub fn finishes_with(s: &[char], pat: &[char]) -> (b: bool)
    ensures
        b == ends_with(s@, pat@),
{
    if pat.len() > s.len() {
        return false;
    }
    is_at(s, s.len() - pat.len(), pat)
}

/// Searches `s` for `pat` from position `i` on.
pub fn search_from(s: &[char], pat: &[char], i: usize) -> (r: Option<usize>)
    ensures
        r matches Some(k) ==> find_from(s@, pat@, i as int) == Some(k as int) && k + pat@.len()
            <= s@.len(),
        r is None ==> find_from(s@, pat@, i as int) is None,
{
    if pat.len() > s.len() {
        return None;
    }
    let last = s.len() - pat.len();
    let mut k: usize = i;
    while k <= last
        invariant
            i <= k,
            last == s@.len() - pat@.len(),
            find_from(s@, pat@, i as int) == find_from(s@, pat@, k as int),
        decreases last + 1 - k,
    {
        if is_at(s, k, pat) {
            return Some(k);
        }
        if k == last {
            assert(find_from(s@, pat@, k + 1) is None);
            return None;
        }
        k += 1;
    }
    None
}

/// Searches `s` for `pat`.
pub fn search(s: &[char], pat: &[char]) -> (r: Option<usize>)
    ensures
        r matches Some(k) ==> find(s@, pat@) == Some(k as int) && k + pat@.len() <= s@.len(),
        r is None ==> find(s@, pat@) is None,
{
    search_from(s, pat, 0)
}

/// Tests whether two slices hold the same characters.
pub fn same(a: &[char], b: &[char]) -> (r: bool)
    ensures
        r == (a@ == b@),
{
    if a.len() != b.len() {
        return false;
    }
    let r = is_at(a, 0, b);
    assert(a@.subrange(0, a@.len() as int) == a@);
    r
}

/// Tests whether the characters `s` spell `word`.
pub fn spells(s: &[char], word: &str) -> (r: bool)
    ensures
        r == (s@ == word@),
{
    let w = chars_of(word);
    same(s, w.as_slice())
}

/// Tests whether `pat` stands anywhere in `s`.
pub fn has_text(s: &[char], pat: &str) -> (b: bool)
    ensures
        b == contains(s@, pat@),
{
    let p = chars_of(pat);
    search(s, p.as_slice()).is_some()
}

/// Trimming makes a text no longer.
pub proof fn lemma_trim_len(s: Seq<char>)
    ensures
        trim(s).len() <= s.len(),
{
    lemma_span(s, 0, CharSet::Space);
    let inner = trim_start(s);
    lemma_span_back(inner, inner.len() as int, CharSet::Space);
}

/// Whether the first character of `s` is `c`.
pub open spec fn first_is(s: Seq<char>, c: char) -> bool {
    s.len() > 0 && s[0] == c
}

/// Whether the last character of `s` is `c`.
pub open spec fn last_is(s: Seq<char>, c: char) -> bool {
    s.len() > 0 && s[s.len() - 1] == c
}

/// Tests the first character of `s`.
pub fn starts_with_char(s: &[char], c: char) -> (b: bool)
    ensures
        b == first_is(s@, c),
{
    s.len() > 0 && s[0] == c
}

/// Tests the last character of `s`.
pub fn ends_with_char(s: &[char], c: char) -> (b: bool)
    ensures
        b == last_is(s@, c),
{
    s.len() > 0 && s[s.len() - 1] == c
}

/// Appends the characters of `s` to `out`.
pub fn push_all(out: &mut Vec<char>, s: &[char])
    ensures
        final(out)@ == old(out)@ + s@,
{
    let mut k: usize = 0;
    while k < s.len()
        invariant
            k <= s@.len(),
            out@ == old(out)@ + s@.take(k as int),
        decreases s@.len() - k,
    {
        out.push(s[k]);
        assert(s@.take(k + 1) == s@.take(k as int).push(s@[k as int]));
        k += 1;
    }
    assert(s@.take(k as int) == s@);
}

/// `n` times the character `c`.
pub open spec fn repeat(c: char, n: nat) -> Seq<char> {
    Seq::new(n, |k: int| c)
}

/// Appends `n` times the character `c`.
pub fn push_repeat(out: &mut Vec<char>, c: char, n: u128)
    ensures
        final(out)@ == old(out)@ + repeat(c, n as nat),
{
    let mut k: u128 = 0;
    while k < n
        invariant
            k <= n,
            out@ == old(out)@ + repeat(c, k as nat),
        decreases n - k,
    {
        out.push(c);
        k += 1;
        assert(out@ =~= old(out)@ + repeat(c, k as nat));
    }
}

/// The characters of `s`, in order.
pub fn chars_of(s: &str) -> (v: Vec<char>)
    ensures
        v@ == s@,
{
    let mut v: Vec<char> = Vec::new();
    let it0 = s.chars();
    for c in it: it0
        invariant
            v@ == it.seq().take(it.index() as int),
            it.seq() == s@,
    {
        v.push(c);
    }
    v
}

/// `String::push`: appends one character to the end of the string.
#[verifier::external_body]
fn string_push(out: &mut String, c: char)
    ensures
        final(out)@ == old(out)@.push(c),
{
    out.push(c)
}

/// The string made of the characters of `s`, in order.
pub fn string_of(s: &[char]) -> (out: String)
    ensures
        out@ == s@,
{
    let mut out = String::new();
    let mut k: usize = 0;
    while k < s.len()
        invariant
            k <= s@.len(),
            out@ == s@.take(k as int),
        decreases s@.len() - k,
    {
        string_push(&mut out, s[k]);
        assert(s@.take(k + 1) == s@.take(k as int).push(s@[k as int]));
        k += 1;
    }
    assert(s@.take(k as int) == s@);
    out
}

} // verus!
