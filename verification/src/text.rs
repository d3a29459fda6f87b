//! Text helpers: whitespace, trimming, case-insensitive search and editing by character.
use vstd::prelude::*;

verus! {

/// Whether `c` has the Unicode `White_Space` property, as `char::is_whitespace` documents.
pub open spec fn is_whitespace_char(c: char) -> bool {
    ||| ('\u{9}' <= c && c <= '\u{d}')
    ||| c == ' '
    ||| c == '\u{85}'
    ||| c == '\u{a0}'
    ||| c == '\u{1680}'
    ||| ('\u{2000}' <= c && c <= '\u{200a}')
    ||| c == '\u{2028}'
    ||| c == '\u{2029}'
    ||| c == '\u{202f}'
    ||| c == '\u{205f}'
    ||| c == '\u{3000}'
}

/// Whether every character of `s` is whitespace (so trimming leaves nothing).
pub open spec fn is_blank(s: Seq<char>) -> bool {
    forall|i: int| 0 <= i < s.len() ==> is_whitespace_char(#[trigger] s[i])
}

/// The index of the first character at or after `i` that is not whitespace.
pub open spec fn skip_whitespace(s: Seq<char>, i: int) -> int
    decreases s.len() - i,
{
    if 0 <= i < s.len() && is_whitespace_char(s[i]) {
        skip_whitespace(s, i + 1)
    } else {
        i
    }
}

/// The end of `s` once trailing whitespace at or after `lo` is cut, starting from `j`.
pub open spec fn skip_whitespace_back(s: Seq<char>, lo: int, j: int) -> int
    decreases j - lo,
{
    if lo < j <= s.len() && is_whitespace_char(s[j - 1]) {
        skip_whitespace_back(s, lo, j - 1)
    } else {
        j
    }
}

/// `s` without leading and trailing whitespace, as `str::trim` documents.
pub open spec fn trim(s: Seq<char>) -> Seq<char> {
    let start = skip_whitespace(s, 0);
    s.subrange(start, skip_whitespace_back(s, start, s.len() as int))
}

/// Whether `needle` occurs in `haystack` as a contiguous run of characters.
pub open spec fn contains_seq(haystack: Seq<char>, needle: Seq<char>) -> bool {
    exists|i: int|
        0 <= i && i + needle.len() <= haystack.len() && #[trigger] haystack.subrange(
            i,
            i + needle.len(),
        ) == needle
}

/// The lowercase mapping of `str::to_lowercase` (Unicode case tables).
pub uninterp spec fn lowercase(s: Seq<char>) -> Seq<char>;

/// Whether `needle`, trimmed, occurs in `haystack` ignoring case.
pub open spec fn contains_ignoring_case(haystack: Seq<char>, needle: Seq<char>) -> bool {
    contains_seq(lowercase(haystack), lowercase(trim(needle)))
}

/// `s` with `c` inserted before character `index` (appended when `index` is past the end).
pub open spec fn insert_char(s: Seq<char>, index: int, c: char) -> Seq<char> {
    let at = if index <= s.len() { index } else { s.len() as int };
    s.take(at) + seq![c] + s.skip(at)
}

/// `s` with the characters from `start` up to `end` removed, both clamped to the length.
pub open spec fn remove_chars(s: Seq<char>, start: int, end: int) -> Seq<char> {
    let a = if start <= s.len() { start } else { s.len() as int };
    let b = if end <= s.len() { end } else { s.len() as int };
    s.take(a) + s.skip(b)
}

/// Whether `c` is whitespace; the list that `char::is_whitespace` documents.
pub fn is_whitespace(c: char) -> (b: bool)
    ensures
        b == is_whitespace_char(c),
{
    ('\u{9}' <= c && c <= '\u{d}') || c == ' ' || c == '\u{85}' || c == '\u{a0}' || c
        == '\u{1680}' || ('\u{2000}' <= c && c <= '\u{200a}') || c == '\u{2028}' || c
        == '\u{2029}' || c == '\u{202f}' || c == '\u{205f}' || c == '\u{3000}'
}

/// The characters of `s`, one per element.
pub fn chars_of(s: &str) -> (chars: Vec<char>)
    ensures
        chars@ == s@,
{
    let n = s.unicode_len();
    let mut chars: Vec<char> = Vec::new();
    let mut i: usize = 0;
    while i < n
        invariant
            n == s@.len(),
            i <= n,
            chars@ == s@.take(i as int),
        decreases n - i,
    {
        let c = s.get_char(i);
        chars.push(c);
        i = i + 1;
        assert(chars@ =~= s@.take(i as int));
    }
    assert(s@.take(n as int) =~= s@);
    chars
}

/// The string of the characters `chars[from..to]`.
pub fn string_of(chars: &Vec<char>, from: usize, to: usize) -> (s: String)
    requires
        from <= to <= chars@.len(),
    ensures
        s@ == chars@.subrange(from as int, to as int),
{
    let mut s = String::new();
    let mut i = from;
    while i < to
        invariant
            from <= i <= to,
            to <= chars@.len(),
            s@ == chars@.subrange(from as int, i as int),
        decreases to - i,
    {
        push_char(&mut s, chars[i]);
        i = i + 1;
        assert(s@ =~= chars@.subrange(from as int, i as int));
    }
    s
}

/// Whether trimming `s` leaves nothing.
pub fn blank(s: &str) -> (b: bool)
    ensures
        b == is_blank(s@),
{
    let n = s.unicode_len();
    let mut i: usize = 0;
    while i < n
        invariant
            n == s@.len(),
            i <= n,
            forall|k: int| 0 <= k < i ==> is_whitespace_char(#[trigger] s@[k]),
        decreases n - i,
    {
        if !is_whitespace(s.get_char(i)) {
            return false;
        }
        i = i + 1;
    }
    true
}

/// `s` without leading and trailing whitespace.
pub fn trimmed(s: &str) -> (t: String)
    ensures
        t@ == trim(s@),
{
    let chars = chars_of(s);
    let n = chars.len();
    let mut start: usize = 0;
    while start < n && is_whitespace(chars[start])
        invariant
            n == s@.len(),
            chars@ == s@,
            start <= n,
            skip_whitespace(s@, 0) == skip_whitespace(s@, start as int),
        decreases n - start,
    {
        start = start + 1;
    }
    let mut end: usize = n;
    while end > start && is_whitespace(chars[end - 1])
        invariant
            n == s@.len(),
            chars@ == s@,
            start <= end <= n,
            skip_whitespace(s@, 0) == start,
            skip_whitespace_back(s@, start as int, n as int) == skip_whitespace_back(
                s@,
                start as int,
                end as int,
            ),
        decreases end - start,
    {
        end = end - 1;
    }
    string_of(&chars, start, end)
}

/// Trimming never leaves whitespace at either end, and leaves nothing exactly when
/// the text is blank.
pub proof fn lemma_trim(s: Seq<char>)
    ensures
        trim(s).len() == 0 <==> is_blank(s),
        trim(s).len() > 0 ==> !is_whitespace_char(trim(s)[0]) && !is_whitespace_char(
            trim(s)[trim(s).len() - 1],
        ),
        !is_blank(trim(s)) <==> !is_blank(s),
{
    lemma_skip_whitespace(s, 0);
    let start = skip_whitespace(s, 0);
    lemma_skip_whitespace_back(s, start, s.len() as int);
    let end = skip_whitespace_back(s, start, s.len() as int);
    if is_blank(s) {
        assert(start == s.len());
    } else {
        let k = choose|k: int| 0 <= k < s.len() && !is_whitespace_char(s[k]);
        assert(start <= k);
        assert(k < end);
        assert(trim(s)[0] == s[start]);
        assert(!is_blank(trim(s))) by {
            assert(!is_whitespace_char(trim(s)[0]));
        }
    }
}

proof fn lemma_skip_whitespace(s: Seq<char>, i: int)
    requires
        0 <= i <= s.len(),
    ensures
        i <= skip_whitespace(s, i) <= s.len(),
        forall|k: int| i <= k < skip_whitespace(s, i) ==> is_whitespace_char(#[trigger] s[k]),
        skip_whitespace(s, i) < s.len() ==> !is_whitespace_char(s[skip_whitespace(s, i)]),
    decreases s.len() - i,
{
    if i < s.len() && is_whitespace_char(s[i]) {
        lemma_skip_whitespace(s, i + 1);
    }
}

proof fn lemma_skip_whitespace_back(s: Seq<char>, lo: int, j: int)
    requires
        0 <= lo <= j <= s.len(),
    ensures
        lo <= skip_whitespace_back(s, lo, j) <= j,
        forall|k: int|
            skip_whitespace_back(s, lo, j) <= k < j ==> is_whitespace_char(#[trigger] s[k]),
        skip_whitespace_back(s, lo, j) > lo ==> !is_whitespace_char(
            s[skip_whitespace_back(s, lo, j) - 1],
        ),
    decreases j - lo,
{
    if lo < j && is_whitespace_char(s[j - 1]) {
        lemma_skip_whitespace_back(s, lo, j - 1);
    }
}

/// Whether `needle`, trimmed, occurs in `haystack` ignoring case.
pub fn contains_case_insensitive(haystack: &str, needle: &str) -> (found: bool)
    ensures
        found == contains_ignoring_case(haystack@, needle@),
{
    let lower_haystack = lowercase_of(haystack);
    let trimmed_needle = trimmed(needle);
    let lower_needle = lowercase_of(trimmed_needle.as_str());
    occurs(lower_haystack.as_str(), lower_needle.as_str())
}

/// Inserts `c` before character `character_index`, or at the end when the string is shorter.
pub fn insert_at(value: &mut String, character_index: usize, c: char)
    ensures
        final(value)@ == insert_char(old(value)@, character_index as int, c),
{
    let chars = chars_of(value.as_str());
    let n = chars.len();
    let at = if character_index <= n { character_index } else { n };
    let mut result = string_of(&chars, 0, at);
    push_char(&mut result, c);
    let rest = string_of(&chars, at, n);
    result.append(rest.as_str());
    proof {
        assert(chars@.subrange(0, at as int) =~= chars@.take(at as int));
        assert(chars@.subrange(at as int, n as int) =~= chars@.skip(at as int));
    }
    *value = result;
}

/// Removes the characters from `start` up to `end` (each clamped to the length).
pub fn remove_range(value: &mut String, start: usize, end: usize)
    requires
        start <= end,
    ensures
        final(value)@ == remove_chars(old(value)@, start as int, end as int),
{
    let chars = chars_of(value.as_str());
    let n = chars.len();
    let a = if start <= n { start } else { n };
    let b = if end <= n { end } else { n };
    let mut result = string_of(&chars, 0, a);
    let rest = string_of(&chars, b, n);
    result.append(rest.as_str());
    proof {
        assert(chars@.subrange(0, a as int) =~= chars@.take(a as int));
        assert(chars@.subrange(b as int, n as int) =~= chars@.skip(b as int));
    }
    *value = result;
}

/// Calls `String::push`, which appends one character.
#[verifier::external_body]
pub(crate) fn push_char(s: &mut String, c: char)
    ensures
        final(s)@ == old(s)@.push(c),
{
    s.push(c);
}

/// Calls `str::to_lowercase`; its result is named by `lowercase`.
#[verifier::external_body]
pub(crate) fn lowercase_of(s: &str) -> (lower: String)
    ensures
        lower@ == lowercase(s@),
{
    s.to_lowercase()
}

/// Calls `str::contains` with a string pattern, which reports whether the pattern
/// occurs in the text.
#[verifier::external_body]
pub(crate) fn occurs(haystack: &str, needle: &str) -> (found: bool)
    ensures
        found == contains_seq(haystack@, needle@),
{
    haystack.contains(needle)
}

} // verus!
