//! Text measured in terminal columns: fitting, truncating, padding and wrapping text, and
//! how many identity columns a width holds.
use vstd::prelude::*;

use crate::text::{chars_of, is_whitespace, is_whitespace_char, string_of};

verus! {

/// The columns `unicode-width` gives a character; none for a control character.
pub uninterp spec fn char_width(c: char) -> Option<usize>;

/// The columns `unicode-width` gives a string.
pub uninterp spec fn str_width(s: Seq<char>) -> usize;

/// Calls `UnicodeWidthChar::width` on `c`; its result is `char_width(c)`, and a width it
/// gives comes from a byte of the crate's tables, so it is at most 255.
#[verifier::external_body]
pub(crate) fn width_of_char(c: char) -> (width: Option<usize>)
    ensures
        width == char_width(c),
        width matches Some(w) ==> w <= 255,
{
    unicode_width::UnicodeWidthChar::width(c)
}

/// Calls `UnicodeWidthStr::width` on `value`; its result is `str_width(value)`, and the
/// empty string takes no columns.
#[verifier::external_body]
pub(crate) fn display_width(value: &str) -> (width: usize)
    ensures
        width == str_width(value@),
        value@.len() == 0 ==> width == 0,
{
    unicode_width::UnicodeWidthStr::width(value)
}

/// The columns of a character, a control character taking none.
pub open spec fn columns(c: char) -> int {
    match char_width(c) {
        Some(w) => w as int,
        None => 0,
    }
}

/// The columns of the first `k` characters of `s`, counted one by one.
pub open spec fn prefix_columns(s: Seq<char>, k: int) -> int
    decreases k,
{
    if k <= 0 || k > s.len() {
        0
    } else {
        prefix_columns(s, k - 1) + columns(s[k - 1])
    }
}

/// The first position at or after `k` where the characters of `s` counted one by one
/// pass `width` columns, or the length when they never do: how many leading characters
/// fit.
pub open spec fn fitting_from(s: Seq<char>, width: int, k: int) -> int
    decreases s.len() - k,
{
    if k < 0 || k >= s.len() {
        s.len() as int
    } else if prefix_columns(s, k + 1) > width {
        k
    } else {
        fitting_from(s, width, k + 1)
    }
}

/// How many leading characters of `s` fit in `width` columns.
pub open spec fn fitting(s: Seq<char>, width: int) -> int {
    fitting_from(s, width, 0)
}

/// The number of identity columns for a terminal `width`: four from 168 columns, three
/// from 120, two from 72, else one.
pub open spec fn column_count(width: int) -> int {
    if width >= 168 {
        4
    } else if width >= 120 {
        3
    } else if width >= 72 {
        2
    } else {
        1
    }
}

/// `value` shortened with an ellipsis so that it fits in `width` columns.
pub open spec fn truncated(value: Seq<char>, width: int) -> Seq<char> {
    if str_width(value) <= width {
        value
    } else if width == 0 {
        Seq::empty()
    } else if width == 1 {
        "…"@
    } else {
        value.take(fitting(value, width - 1)) + "…"@
    }
}

/// `n` spaces.
pub open spec fn spaces(n: int) -> Seq<char> {
    Seq::new(if n > 0 { n as nat } else { 0 }, |i: int| ' ')
}

/// `value` followed by spaces up to `width` columns.
pub open spec fn padded(value: Seq<char>, width: int) -> Seq<char> {
    value + spaces(width - str_width(value))
}

/// The words found so far in `s` and the word being read at its end.
pub open spec fn words_read(s: Seq<char>) -> (Seq<Seq<char>>, Seq<char>)
    decreases s.len(),
{
    if s.len() == 0 {
        (Seq::empty(), Seq::empty())
    } else {
        let (done, current) = words_read(s.drop_last());
        if is_whitespace_char(s.last()) {
            if current.len() > 0 {
                (done.push(current), Seq::empty())
            } else {
                (done, Seq::empty())
            }
        } else {
            (done, current.push(s.last()))
        }
    }
}

/// The words of `s`: its runs of characters that are not whitespace, as
/// `str::split_whitespace` gives them.
pub open spec fn words(s: Seq<char>) -> Seq<Seq<char>> {
    let (done, current) = words_read(s);
    if current.len() > 0 {
        done.push(current)
    } else {
        done
    }
}

/// A word too wide for a line, cut into lines of what fits and the rest that does: a
/// character that fits nowhere becomes an ellipsis line.
pub open spec fn split_long(rest: Seq<char>, width: int) -> (Seq<Seq<char>>, Seq<char>)
    decreases rest.len(),
{
    if rest.len() == 0 || str_width(rest) <= width {
        (Seq::empty(), rest)
    } else {
        let k = fitting(rest, width);
        if k <= 0 {
            let (pieces, last) = split_long(rest.skip(1), width);
            (seq!["…"@] + pieces, last)
        } else {
            proof {
                lemma_fitting_bounds(rest, width, 0);
            }
            let (pieces, last) = split_long(rest.skip(k), width);
            (seq![rest.take(k)] + pieces, last)
        }
    }
}

/// Where a word goes: on the current line after a space when it fits there, else the
/// current line is finished and the word starts the next one, cut when too wide.
pub open spec fn place_word(lines: Seq<Seq<char>>, current: Seq<char>, word: Seq<char>, width: int) -> (Seq<Seq<char>>, Seq<char>) {
    let separator = if current.len() > 0 { 1int } else { 0int };
    if str_width(current) + separator + str_width(word) <= width {
        (lines, if separator == 1 { current + " "@ + word } else { current + word })
    } else {
        let finished = if current.len() > 0 { lines.push(current) } else { lines };
        let (pieces, rest) = split_long(word, width);
        (finished + pieces, rest)
    }
}

/// The lines and the current line after placing `ws` one by one.
pub open spec fn placed(ws: Seq<Seq<char>>, width: int) -> (Seq<Seq<char>>, Seq<char>)
    decreases ws.len(),
{
    if ws.len() == 0 {
        (Seq::empty(), Seq::empty())
    } else {
        let (lines, current) = placed(ws.drop_last(), width);
        place_word(lines, current, ws.last(), width)
    }
}

/// The words of each line, read line after line.
pub open spec fn words_of_lines(lines: Seq<Seq<char>>) -> Seq<Seq<char>>
    decreases lines.len(),
{
    if lines.len() == 0 {
        Seq::empty()
    } else {
        words_of_lines(lines.drop_last()) + words(lines.last())
    }
}

/// A piece of text that holds no whitespace.
pub open spec fn no_whitespace(s: Seq<char>) -> bool {
    forall|i: int| 0 <= i < s.len() ==> !is_whitespace_char(#[trigger] s[i])
}

/// Reading characters that are not whitespace only extends the word being read.
proof fn lemma_words_read_extend(p: Seq<char>, w: Seq<char>)
    requires
        no_whitespace(w),
    ensures
        words_read(p + w) == (words_read(p).0, words_read(p).1 + w),
    decreases w.len(),
{
    if w.len() == 0 {
        assert(p + w =~= p);
        assert(words_read(p).1 + w =~= words_read(p).1);
    } else {
        lemma_words_read_extend(p, w.drop_last());
        assert((p + w).drop_last() =~= p + w.drop_last());
        assert((p + w).last() == w.last());
        assert(words_read(p).1 + w.drop_last() + seq![w.last()] =~= words_read(p).1 + w);
    }
}

/// A line and then, after a space, a word has the words of the line and then that word;
/// a word alone is its only word.
proof fn lemma_words_of_joined(line: Seq<char>, w: Seq<char>)
    requires
        no_whitespace(w),
        w.len() > 0,
    ensures
        words(line + " "@ + w) == words(line).push(w),
        words(w) == seq![w],
{
    reveal_strlit(" ");
    let spaced = line + " "@;
    assert(spaced.drop_last() =~= line);
    assert(spaced.last() == ' ');
    assert(is_whitespace_char(' '));
    assert(words_read(spaced) == (words(line), Seq::<char>::empty()));
    lemma_words_read_extend(spaced, w);
    assert(Seq::<char>::empty() + w =~= w);
    lemma_words_read_extend(Seq::empty(), w);
    assert(Seq::<char>::empty() + w =~= w);
}

/// The words of a text are not empty and hold no whitespace; nor does the word being read.
proof fn lemma_words_are_words(s: Seq<char>)
    ensures
        forall|i: int| 0 <= i < words(s).len() ==> #[trigger] words(s)[i].len() > 0 && no_whitespace(words(s)[i]),
        no_whitespace(words_read(s).1),
        forall|i: int| 0 <= i < words_read(s).0.len() ==> #[trigger] words_read(s).0[i].len() > 0 && no_whitespace(words_read(s).0[i]),
    decreases s.len(),
{
    if s.len() > 0 {
        lemma_words_are_words(s.drop_last());
        let (done, current) = words_read(s.drop_last());
        if !is_whitespace_char(s.last()) {
            assert forall|i: int| 0 <= i < current.push(s.last()).len() implies !is_whitespace_char(#[trigger] current.push(s.last())[i]) by {
                if i < current.len() {
                    assert(current.push(s.last())[i] == current[i]);
                }
            }
        }
    }
}

/// Placing words that fit the width, none empty and none holding whitespace, keeps them
/// in order across the finished lines and the current one.
proof fn lemma_placed_keeps_words(ws: Seq<Seq<char>>, width: int)
    requires
        forall|i: int| 0 <= i < ws.len() ==> #[trigger] ws[i].len() > 0 && no_whitespace(ws[i]) && str_width(ws[i]) <= width,
    ensures
        words_of_lines(placed(ws, width).0) + words(placed(ws, width).1) == ws,
    decreases ws.len(),
{
    if ws.len() == 0 {
        let empty = Seq::<char>::empty();
        assert(words_read(empty) == (Seq::<Seq<char>>::empty(), empty));
        assert(words(empty) =~= Seq::<Seq<char>>::empty());
        assert(words_of_lines(Seq::<Seq<char>>::empty()) + Seq::<Seq<char>>::empty() =~= ws);
    } else {
        let rest = ws.drop_last();
        assert forall|i: int| 0 <= i < rest.len() implies #[trigger] rest[i].len() > 0 && no_whitespace(rest[i]) && str_width(rest[i]) <= width by {
            assert(rest[i] == ws[i]);
        }
        lemma_placed_keeps_words(rest, width);
        let (lines, current) = placed(rest, width);
        let word = ws.last();
        assert(word == ws[ws.len() - 1]);
        lemma_words_of_joined(current, word);
        reveal_strlit(" ");
        let empty = Seq::<char>::empty();
        assert(words_read(empty) == (Seq::<Seq<char>>::empty(), empty));
        if current.len() == 0 {
            assert(current =~= empty);
            assert(current + word =~= word);
            assert(words(current) =~= Seq::<Seq<char>>::empty());
        }
        let separator = if current.len() > 0 { 1int } else { 0int };
        assert(placed(ws, width) == place_word(lines, current, word, width));
        assert(rest.push(word) =~= ws);
        if str_width(current) + separator + str_width(word) <= width {
            if current.len() > 0 {
                assert(placed(ws, width).1 == current + " "@ + word);
                assert(words_of_lines(lines) + words(current).push(word) =~= (words_of_lines(lines) + words(current)).push(word));
            } else {
                assert(placed(ws, width).1 == word);
            }
            assert(words_of_lines(lines) + words(placed(ws, width).1) =~= ws);
        } else {
            assert(split_long(word, width) == (Seq::<Seq<char>>::empty(), word));
            if current.len() > 0 {
                assert(lines.push(current).drop_last() =~= lines);
                assert(lines.push(current) + Seq::<Seq<char>>::empty() =~= lines.push(current));
            } else {
                assert(lines + Seq::<Seq<char>>::empty() =~= lines);
            }
            assert(words_of_lines(placed(ws, width).0) + words(placed(ws, width).1) =~= ws);
        }
    }
}

/// No line of `lines` could have taken the first word of the line after it: that word,
/// after a space, would not fit the width.
pub open spec fn filled_greedily(lines: Seq<Seq<char>>, width: int) -> bool {
    forall|i: int| 0 <= i < lines.len() - 1 ==> #[trigger] str_width(lines[i]) + 1 + str_width(words(lines[i + 1])[0]) > width
}

/// Placing words that fit the width fills the finished lines greedily, and the current
/// line, which is never empty once a line is finished, would not fit after the last one.
proof fn lemma_placed_fills_greedily(ws: Seq<Seq<char>>, width: int)
    requires
        forall|i: int| 0 <= i < ws.len() ==> #[trigger] ws[i].len() > 0 && no_whitespace(ws[i]) && str_width(ws[i]) <= width,
    ensures
        filled_greedily(placed(ws, width).0, width),
        placed(ws, width).0.len() > 0 ==> placed(ws, width).1.len() > 0,
        placed(ws, width).0.len() > 0 ==> str_width(placed(ws, width).0.last()) + 1 + str_width(
            words(placed(ws, width).1)[0],
        ) > width,
        placed(ws, width).1.len() > 0 ==> words(placed(ws, width).1).len() > 0,
    decreases ws.len(),
{
    if ws.len() > 0 {
        let rest = ws.drop_last();
        assert forall|i: int| 0 <= i < rest.len() implies #[trigger] rest[i].len() > 0 && no_whitespace(rest[i]) && str_width(rest[i]) <= width by {
            assert(rest[i] == ws[i]);
        }
        lemma_placed_fills_greedily(rest, width);
        let (lines, current) = placed(rest, width);
        let word = ws.last();
        assert(word == ws[ws.len() - 1]);
        lemma_words_of_joined(current, word);
        reveal_strlit(" ");
        let empty = Seq::<char>::empty();
        assert(words_read(empty) == (Seq::<Seq<char>>::empty(), empty));
        if current.len() == 0 {
            assert(current =~= empty);
            assert(current + word =~= word);
        }
        assert(placed(ws, width) == place_word(lines, current, word, width));
        let separator = if current.len() > 0 { 1int } else { 0int };
        if str_width(current) + separator + str_width(word) <= width {
            if current.len() > 0 {
                assert(words(current + " "@ + word)[0] == words(current)[0]);
            }
        } else {
            assert(split_long(word, width) == (Seq::<Seq<char>>::empty(), word));
            if current.len() > 0 {
                let finished = lines.push(current);
                assert(finished + Seq::<Seq<char>>::empty() =~= finished);
                assert forall|i: int| 0 <= i < finished.len() - 1 implies #[trigger] str_width(finished[i]) + 1
                    + str_width(words(finished[i + 1])[0]) > width by {
                    if i < lines.len() - 1 {
                        assert(finished[i] == lines[i] && finished[i + 1] == lines[i + 1]);
                    } else {
                        assert(finished[i] == lines.last() && finished[i + 1] == current);
                    }
                }
                assert(words(word)[0] == word);
            } else {
                assert(lines + Seq::<Seq<char>>::empty() =~= lines);
            }
        }
    }
}

/// Wrapping fills lines greedily: when no word is wider than the width, the first word of
/// each line but the first would not have fitted, after a space, at the end of the line
/// before it.
pub proof fn lemma_wrapping_fills_greedily(value: Seq<char>, width: int)
    requires
        width > 0,
        forall|i: int| 0 <= i < words(value).len() ==> str_width(#[trigger] words(value)[i]) <= width,
    ensures
        filled_greedily(wrapped(value, width), width),
{
    if value.len() > 0 {
        lemma_words_are_words(value);
        lemma_placed_fills_greedily(words(value), width);
        let (lines, current) = placed(words(value), width);
        if current.len() > 0 {
            let all = lines.push(current);
            assert forall|i: int| 0 <= i < all.len() - 1 implies #[trigger] str_width(all[i]) + 1
                + str_width(words(all[i + 1])[0]) > width by {
                if i < lines.len() - 1 {
                    assert(all[i] == lines[i] && all[i + 1] == lines[i + 1]);
                } else {
                    assert(all[i] == lines.last() && all[i + 1] == current);
                }
            }
        }
    }
}

/// Wrapping keeps the words of a text, in order: when no word is wider than the width,
/// the words of the lines, read line after line, are the words of the text.
pub proof fn lemma_wrapping_keeps_words(value: Seq<char>, width: int)
    requires
        width > 0,
        forall|i: int| 0 <= i < words(value).len() ==> str_width(#[trigger] words(value)[i]) <= width,
    ensures
        words_of_lines(wrapped(value, width)) == words(value),
{
    let empty = Seq::<char>::empty();
    assert(words_read(empty) == (Seq::<Seq<char>>::empty(), empty));
    assert(words(empty) =~= Seq::<Seq<char>>::empty());
    let one: Seq<Seq<char>> = seq![empty];
    assert(one.drop_last() =~= Seq::<Seq<char>>::empty());
    assert(one.last() == empty);
    assert(words_of_lines(Seq::<Seq<char>>::empty()) == Seq::<Seq<char>>::empty());
    assert(words_of_lines(one) =~= Seq::<Seq<char>>::empty());
    if value.len() == 0 {
        assert(value =~= empty);
    } else {
        lemma_words_are_words(value);
        lemma_placed_keeps_words(words(value), width);
        let (lines, current) = placed(words(value), width);
        if current.len() > 0 {
            assert(lines.push(current).drop_last() =~= lines);
        } else {
            assert(current =~= empty);
            assert(words_of_lines(lines) + Seq::<Seq<char>>::empty() =~= words_of_lines(lines));
            if lines.len() == 0 {
                assert(words_of_lines(lines) =~= Seq::<Seq<char>>::empty());
            }
        }
    }
}

/// `value` wrapped at word boundaries into lines of `width` columns; never no line.
pub open spec fn wrapped(value: Seq<char>, width: int) -> Seq<Seq<char>> {
    if value.len() == 0 || width == 0 {
        seq![Seq::empty()]
    } else {
        let (lines, current) = placed(words(value), width);
        let all = if current.len() > 0 { lines.push(current) } else { lines };
        if all.len() == 0 {
            seq![Seq::empty()]
        } else {
            all
        }
    }
}

/// How many identity columns fit in a terminal `width`.
pub fn dashboard_columns(width: u16) -> (columns: usize)
    ensures
        columns == column_count(width as int),
{
    if width >= 168 {
        4
    } else if width >= 120 {
        3
    } else if width >= 72 {
        2
    } else {
        1
    }
}

/// How many leading characters of `value` fit in `width` columns.
pub fn chars_within_width(value: &Vec<char>, width: usize) -> (count: usize)
    ensures
        count == fitting(value@, width as int),
{
    let mut used: usize = 0;
    let mut i: usize = 0;
    while i < value.len()
        invariant
            i <= value@.len(),
            used == prefix_columns(value@, i as int),
            used <= width,
            fitting(value@, width as int) == fitting_from(value@, width as int, i as int),
        decreases value@.len() - i,
    {
        let w = match width_of_char(value[i]) {
            Some(w) => w,
            None => 0,
        };
        if w > width - used {
            return i;
        }
        used = used + w;
        i = i + 1;
    }
    i
}

/// `value` shortened with an ellipsis so that it fits in `width` columns.
pub fn truncate_to_width(value: &str, width: usize) -> (text: String)
    ensures
        text@ == truncated(value@, width as int),
{
    if display_width(value) <= width {
        return String::from_str(value);
    }
    if width == 0 {
        return String::new();
    }
    if width == 1 {
        return String::from_str("…");
    }
    let chars = chars_of(value);
    let k = chars_within_width(&chars, width - 1);
    proof {
        lemma_fitting_bounds(value@, width - 1, 0);
    }
    let mut text = string_of(&chars, 0, k);
    text.append("…");
    text
}

/// `value` followed by spaces up to `width` columns.
pub fn pad_to_width(value: &str, width: usize) -> (text: String)
    ensures
        text@ == padded(value@, width as int),
{
    let used = display_width(value);
    let mut text = String::from_str(value);
    let mut n: usize = if width > used { width - used } else { 0 };
    let ghost start = text@;
    while n > 0
        invariant
            start == value@,
            text@ == start + spaces(((if width > used { width - used } else { 0 }) - n) as int),
            n <= (if width > used { width - used } else { 0 }),
        decreases n,
    {
        crate::text::push_char(&mut text, ' ');
        n = n - 1;
        proof {
            let total = (if width > used { width - used } else { 0 }) as int;
            assert(spaces(total - n - 1).push(' ') =~= spaces(total - n));
        }
    }
    proof {
        assert(spaces(width - str_width(value@)) =~= spaces((if width > used { width - used } else { 0 }) as int));
    }
    text
}

/// `fitting_from` stays between `k` and the length.
pub proof fn lemma_fitting_bounds(s: Seq<char>, width: int, k: int)
    requires
        0 <= k <= s.len(),
    ensures
        k <= fitting_from(s, width, k) <= s.len(),
    decreases s.len() - k,
{
    if k < s.len() && prefix_columns(s, k + 1) <= width {
        lemma_fitting_bounds(s, width, k + 1);
    }
}

/// The texts of a list of character lists.
pub open spec fn char_views(v: Seq<Vec<char>>) -> Seq<Seq<char>> {
    Seq::new(v.len(), |i: int| v[i]@)
}

/// The characters of `v` from `from` up to `to`.
fn slice_chars(v: &Vec<char>, from: usize, to: usize) -> (part: Vec<char>)
    requires
        from <= to <= v@.len(),
    ensures
        part@ == v@.subrange(from as int, to as int),
{
    let mut part: Vec<char> = Vec::new();
    let mut i = from;
    while i < to
        invariant
            from <= i <= to,
            to <= v@.len(),
            part@ == v@.subrange(from as int, i as int),
        decreases to - i,
    {
        part.push(v[i]);
        i = i + 1;
        proof {
            assert(part@ =~= v@.subrange(from as int, i as int));
        }
    }
    part
}

/// The columns the characters of `v` take together.
fn chars_width(v: &Vec<char>) -> (width: usize)
    ensures
        width == str_width(v@),
        v@.len() == 0 ==> width == 0,
{
    let text = string_of(v, 0, v.len());
    proof {
        assert(v@.subrange(0, v@.len() as int) =~= v@);
    }
    display_width(text.as_str())
}

/// The words of `chars`: its runs of characters that are not whitespace.
fn split_words(chars: &Vec<char>) -> (ws: Vec<Vec<char>>)
    ensures
        char_views(ws@) == words(chars@),
{
    let mut done: Vec<Vec<char>> = Vec::new();
    let mut current: Vec<char> = Vec::new();
    let mut i: usize = 0;
    while i < chars.len()
        invariant
            i <= chars@.len(),
            char_views(done@) == words_read(chars@.take(i as int)).0,
            current@ == words_read(chars@.take(i as int)).1,
        decreases chars@.len() - i,
    {
        let c = chars[i];
        proof {
            assert(chars@.take(i + 1).drop_last() =~= chars@.take(i as int));
            assert(chars@.take(i + 1).last() == c);
        }
        let ghost before = char_views(done@);
        if is_whitespace(c) {
            if current.len() > 0 {
                let finished = current;
                current = Vec::new();
                done.push(finished);
                proof {
                    assert(char_views(done@) =~= before.push(finished@));
                }
            }
            proof {
                assert(current@ =~= Seq::<char>::empty());
            }
        } else {
            current.push(c);
        }
        i = i + 1;
    }
    proof {
        assert(chars@.take(chars@.len() as int) =~= chars@);
    }
    if current.len() > 0 {
        let ghost before = char_views(done@);
        done.push(current);
        proof {
            assert(char_views(done@) =~= before.push(current@));
        }
    }
    done
}

/// A word too wide for a line, cut into the lines that fit and the rest.
fn split_long_word(word: Vec<char>, width: usize) -> (cut: (Vec<String>, Vec<char>))
    ensures
        crate::cli::texts(cut.0@) == split_long(word@, width as int).0,
        cut.1@ == split_long(word@, width as int).1,
{
    let mut pieces: Vec<String> = Vec::new();
    let mut rest = word;
    loop
        invariant
            split_long(word@, width as int).0 == crate::cli::texts(pieces@) + split_long(rest@, width as int).0,
            split_long(word@, width as int).1 == split_long(rest@, width as int).1,
        ensures
            split_long(word@, width as int).0 == crate::cli::texts(pieces@),
            split_long(word@, width as int).1 == rest@,
        decreases rest@.len(),
    {
        let rest_width = chars_width(&rest);
        if rest_width <= width {
            proof {
                assert(split_long(rest@, width as int).0 =~= Seq::<Seq<char>>::empty());
                assert(crate::cli::texts(pieces@) + Seq::<Seq<char>>::empty() =~= crate::cli::texts(pieces@));
            }
            break;
        }
        let k = chars_within_width(&rest, width);
        proof {
            lemma_fitting_bounds(rest@, width as int, 0);
        }
        let ghost old_pieces = crate::cli::texts(pieces@);
        let ghost old_rest = rest@;
        if k == 0 {
            pieces.push(String::from_str("…"));
            rest = slice_chars(&rest, 1, rest.len());
            proof {
                assert(rest@ =~= old_rest.skip(1));
                assert(crate::cli::texts(pieces@) =~= old_pieces.push("…"@));
                assert(old_pieces.push("…"@) + split_long(rest@, width as int).0 =~= old_pieces + (seq!["…"@] + split_long(rest@, width as int).0));
            }
        } else {
            let piece = string_of(&rest, 0, k);
            pieces.push(piece);
            rest = slice_chars(&rest, k, rest.len());
            proof {
                assert(rest@ =~= old_rest.skip(k as int));
                assert(piece@ =~= old_rest.take(k as int));
                assert(crate::cli::texts(pieces@) =~= old_pieces.push(old_rest.take(k as int)));
                assert(old_pieces.push(old_rest.take(k as int)) + split_long(rest@, width as int).0 =~= old_pieces + (seq![old_rest.take(k as int)] + split_long(rest@, width as int).0));
            }
        }
    }
    (pieces, rest)
}

/// Places `word`: on the current line when it fits there, else on new lines.
fn place_word_on(lines: &mut Vec<String>, current: &mut Vec<char>, word: &Vec<char>, width: usize)
    ensures
        crate::cli::texts(final(lines)@) == place_word(crate::cli::texts(old(lines)@), old(current)@, word@, width as int).0,
        final(current)@ == place_word(crate::cli::texts(old(lines)@), old(current)@, word@, width as int).1,
{
    let current_width = chars_width(current);
    let word_width = chars_width(word);
    let separator: usize = if current.len() > 0 { 1 } else { 0 };
    if current_width <= width && separator <= width - current_width && word_width <= width - current_width - separator {
        if separator == 1 {
            current.push(' ');
        }
        let ghost start = current@;
        let mut i: usize = 0;
        while i < word.len()
            invariant
                i <= word@.len(),
                current@ == start + word@.take(i as int),
            decreases word@.len() - i,
        {
            current.push(word[i]);
            i = i + 1;
            proof {
                assert(current@ =~= start + word@.take(i as int));
            }
        }
        proof {
            reveal_strlit(" ");
            assert(word@.take(word@.len() as int) =~= word@);
            if separator == 1 {
                assert(start == old(current)@ + " "@);
                assert(current@ =~= old(current)@ + " "@ + word@);
            } else {
                assert(current@ =~= old(current)@ + word@);
            }
        }
    } else {
        let ghost old_lines = crate::cli::texts(lines@);
        if current.len() > 0 {
            let line = string_of(current, 0, current.len());
            lines.push(line);
            proof {
                assert(line@ =~= old(current)@);
                assert(crate::cli::texts(lines@) =~= old_lines.push(old(current)@));
            }
        }
        let ghost finished = crate::cli::texts(lines@);
        let copy = slice_chars(word, 0, word.len());
        proof {
            assert(copy@ =~= word@);
        }
        let (pieces, rest) = split_long_word(copy, width);
        let mut i: usize = 0;
        while i < pieces.len()
            invariant
                i <= pieces@.len(),
                crate::cli::texts(lines@) == finished + crate::cli::texts(pieces@).take(i as int),
            decreases pieces@.len() - i,
        {
            let piece = pieces[i].clone();
            let ghost before = crate::cli::texts(lines@);
            lines.push(piece);
            proof {
                assert(crate::cli::texts(lines@) =~= before.push(pieces@[i as int]@));
                assert(crate::cli::texts(pieces@).take(i + 1) =~= crate::cli::texts(pieces@).take(i as int).push(pieces@[i as int]@));
            }
            i = i + 1;
            proof {
                assert(crate::cli::texts(lines@) =~= finished + crate::cli::texts(pieces@).take(i as int));
            }
        }
        proof {
            assert(crate::cli::texts(pieces@).take(pieces@.len() as int) =~= crate::cli::texts(pieces@));
        }
        *current = rest;
    }
}

/// `value` wrapped at word boundaries into lines of `width` columns; an empty text or
/// width gives one empty line.
pub fn wrap_text(value: &str, width: usize) -> (lines: Vec<String>)
    ensures
        crate::cli::texts(lines@) == wrapped(value@, width as int),
{
    let chars = chars_of(value);
    let mut lines: Vec<String> = Vec::new();
    if chars.len() == 0 || width == 0 {
        lines.push(String::new());
        proof {
            assert(crate::cli::texts(lines@) =~= seq![Seq::<char>::empty()]);
        }
        return lines;
    }
    let ws = split_words(&chars);
    let mut current: Vec<char> = Vec::new();
    let mut i: usize = 0;
    while i < ws.len()
        invariant
            i <= ws@.len(),
            crate::cli::texts(lines@) == placed(char_views(ws@).take(i as int), width as int).0,
            current@ == placed(char_views(ws@).take(i as int), width as int).1,
        decreases ws@.len() - i,
    {
        proof {
            assert(char_views(ws@).take(i + 1).drop_last() =~= char_views(ws@).take(i as int));
            assert(char_views(ws@).take(i + 1).last() == ws@[i as int]@);
        }
        place_word_on(&mut lines, &mut current, &ws[i], width);
        i = i + 1;
    }
    proof {
        assert(char_views(ws@).take(ws@.len() as int) =~= words(value@));
    }
    if current.len() > 0 {
        let ghost before = crate::cli::texts(lines@);
        let line = string_of(&current, 0, current.len());
        lines.push(line);
        proof {
            assert(line@ =~= current@);
            assert(crate::cli::texts(lines@) =~= before.push(current@));
        }
    }
    if lines.len() == 0 {
        lines.push(String::new());
        proof {
            assert(crate::cli::texts(lines@) =~= seq![Seq::<char>::empty()]);
        }
    }
    lines
}

/// The first position at or after `k` where the characters of `s` before it take at
/// least `skip` columns; the length when none does.
pub open spec fn skip_start(s: Seq<char>, skip: int, k: int) -> int
    decreases s.len() - k,
{
    if k < 0 || k >= s.len() {
        s.len() as int
    } else if prefix_columns(s, k) >= skip {
        k
    } else {
        skip_start(s, skip, k + 1)
    }
}

/// What an input field `width` columns wide shows of `input` with the cursor after its
/// first `cursor` characters, and the column of the cursor: the value scrolled past as
/// many leading characters as keep the cursor in the field, shortened to the field.
pub open spec fn visible_field(input: Seq<char>, cursor: int, width: int) -> (Seq<char>, int) {
    if width == 0 {
        (Seq::empty(), 0)
    } else {
        let before = input.take(if cursor < input.len() { cursor } else { input.len() as int });
        let cursor_width = str_width(before) as int;
        let skip = if cursor_width > width - 1 { cursor_width - (width - 1) } else { 0 };
        let start = skip_start(input, skip, 0);
        let skipped = prefix_columns(input, start);
        let column = if cursor_width > skipped { cursor_width - skipped } else { 0 };
        (truncated(input.skip(start), width), if column < width - 1 { column } else { width - 1 })
    }
}

/// What an input field `width` columns wide shows of `input` with the cursor after its
/// first `cursor` characters, and the column of the cursor.
pub fn visible_input(input: &str, cursor: usize, width: usize) -> (shown: (String, usize))
    requires
        input@.len() <= usize::MAX / 256,
    ensures
        shown.0@ == visible_field(input@, cursor as int, width as int).0,
        shown.1 == visible_field(input@, cursor as int, width as int).1,
{
    if width == 0 {
        return (String::new(), 0);
    }
    let chars = chars_of(input);
    let n = chars.len();
    let taken = if cursor < n { cursor } else { n };
    let before = string_of(&chars, 0, taken);
    proof {
        assert(chars@.subrange(0, taken as int) =~= input@.take(taken as int));
    }
    let cursor_width = display_width(before.as_str());
    let skip = cursor_width.saturating_sub(width - 1);
    let ghost goal = skip_start(input@, skip as int, 0);
    let mut skipped: usize = 0;
    let mut start: usize = 0;
    while start < n && skipped < skip
        invariant
            start <= n == chars@.len(),
            chars@ == input@,
            n <= usize::MAX / 256,
            skipped == prefix_columns(input@, start as int),
            skipped <= 255 * start,
            goal == skip_start(input@, skip as int, 0),
            goal == skip_start(input@, skip as int, start as int),
        decreases n - start,
    {
        let w = match width_of_char(chars[start]) {
            Some(w) => w,
            None => 0,
        };
        skipped = skipped + w;
        start = start + 1;
    }
    proof {
        assert(goal == start);
    }
    let rest = string_of(&chars, start, n);
    proof {
        assert(chars@.subrange(start as int, n as int) =~= input@.skip(start as int));
    }
    let shown = truncate_to_width(rest.as_str(), width);
    let column = cursor_width.saturating_sub(skipped);
    (shown, if column < width - 1 { column } else { width - 1 })
}

} // verus!
