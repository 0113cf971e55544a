//! Units as Prometheus spells them.
//!
//! A unit arrives in the short form that instruments use (`ms`, `By`,
//! `{request}`, `requests/second`) and leaves as a word that can be made
//! part of a metric name.

use crate::text::{append_chars, chars_of, cow_text, ends_with, push_char, text_ends_with, text_eq};
use std::borrow::Cow;
use vstd::prelude::*;

verus! {

/// Whether a character is white space: whether it has the Unicode property
/// `White_Space`. These are the tab, the line feed, the vertical tab, the
/// form feed, the carriage return and the space, the next line, the no-break
/// space, and the spaces and separators of the blocks from U+1680 on.
pub open spec fn unicode_whitespace(c: char) -> bool {
    ||| '\u{9}' <= c && c <= '\u{d}'
    ||| c == '\u{20}'
    ||| c == '\u{85}'
    ||| c == '\u{a0}'
    ||| c == '\u{1680}'
    ||| '\u{2000}' <= c && c <= '\u{200a}'
    ||| c == '\u{2028}'
    ||| c == '\u{2029}'
    ||| c == '\u{202f}'
    ||| c == '\u{205f}'
    ||| c == '\u{3000}'
}

/// Whether `c` is white space.
///
/// Calls `char::is_whitespace`, which tells whether the character has the
/// Unicode property `White_Space`. The contract claims that these are the
/// characters that `unicode_whitespace` lists.
#[verifier::external_body]
pub(crate) fn is_whitespace(c: char) -> (white: bool)
    ensures
        white == unicode_whitespace(c),
{
    c.is_whitespace()
}

/// `text` without the white space at its start.
pub open spec fn trimmed_start(text: Seq<char>) -> Seq<char>
    decreases text.len(),
{
    if text.len() > 0 && unicode_whitespace(text.first()) {
        trimmed_start(text.drop_first())
    } else {
        text
    }
}

/// `text` without the white space at its end.
pub open spec fn trimmed_end(text: Seq<char>) -> Seq<char>
    decreases text.len(),
{
    if text.len() > 0 && unicode_whitespace(text.last()) {
        trimmed_end(text.drop_last())
    } else {
        text
    }
}

/// `text` without the white space at either end.
pub open spec fn trimmed(text: Seq<char>) -> Seq<char> {
    trimmed_end(trimmed_start(text))
}

/// The position of the first `c` in `text`, or the length of `text` where it
/// holds none.
pub open spec fn first_index_of(text: Seq<char>, c: char) -> int
    decreases text.len(),
{
    if text.len() == 0 {
        0
    } else if text.first() == c {
        0
    } else {
        1 + first_index_of(text.drop_first(), c)
    }
}

/// Where the first `{` stands, if a `}` follows it, together with where the
/// first such `}` stands.
pub open spec fn bracket_span(unit: Seq<char>) -> Option<(int, int)> {
    let open = first_index_of(unit, '{');
    if open < unit.len() {
        let rest = unit.subrange(open + 1, unit.len() as int);
        let close = first_index_of(rest, '}');
        if close < rest.len() {
            Some((open, open + 1 + close))
        } else {
            None
        }
    } else {
        None
    }
}

/// `unit` without its first bracketed span, the brackets included.
pub open spec fn without_brackets(unit: Seq<char>) -> Seq<char> {
    match bracket_span(unit) {
        Some((open, close)) => unit.subrange(0, open) + unit.subrange(
            close + 1,
            unit.len() as int,
        ),
        None => unit,
    }
}

/// `unit` with `_per_` in place of each `/`.
pub open spec fn slashes_replaced(unit: Seq<char>) -> Seq<char>
    decreases unit.len(),
{
    if unit.len() == 0 {
        unit
    } else if unit.last() == '/' {
        slashes_replaced(unit.drop_last()) + "_per_"@
    } else {
        slashes_replaced(unit.drop_last()).push(unit.last())
    }
}

/// Whether `unit` is one of the short forms that have a full word.
pub open spec fn is_abbreviation(unit: Seq<char>) -> bool {
    unit == "ms"@ || unit == "s"@ || unit == "m"@ || unit == "kg"@ || unit == "g"@ || unit == "b"@
        || unit == "bytes"@ || unit == "By"@ || unit == "%"@
}

/// The full word for a short form; any other unit as it is.
pub open spec fn expanded(unit: Seq<char>) -> Seq<char> {
    if unit == "ms"@ {
        "milliseconds"@
    } else if unit == "s"@ {
        "seconds"@
    } else if unit == "m"@ {
        "meters"@
    } else if unit == "kg"@ {
        "kilograms"@
    } else if unit == "g"@ {
        "grams"@
    } else if unit == "b"@ || unit == "bytes"@ || unit == "By"@ {
        "bytes"@
    } else if unit == "%"@ {
        "percent"@
    } else {
        unit
    }
}

/// What a unit without white space around it becomes.
pub open spec fn converted(unit: Seq<char>) -> Seq<char> {
    let bare = without_brackets(unit);
    if unit.len() == 0 {
        Seq::empty()
    } else if bare == "1"@ {
        "ratio"@
    } else if bare.contains('/') {
        slashes_replaced(bare)
    } else {
        expanded(bare)
    }
}

/// Whether the converted form of a unit without white space around it is new
/// text, neither a part of the unit nor a fixed word.
pub open spec fn conversion_is_new_text(unit: Seq<char>) -> bool {
    let bare = without_brackets(unit);
    unit.len() > 0 && bare != "1"@ && (bare.contains('/') || (!is_abbreviation(bare) && (
    match bracket_span(unit) {
        Some((open, close)) => 0 < open && close + 1 < unit.len(),
        None => false,
    })))
}

/// What a unit becomes.
pub open spec fn converted_unit(unit: Seq<char>) -> Seq<char> {
    converted(trimmed(unit))
}

/// `name`, followed by `_` and `unit` unless there is no unit or the name
/// ends with it already.
pub open spec fn with_unit_suffix(name: Seq<char>, unit: Seq<char>) -> Seq<char> {
    if unit.len() == 0 || ends_with(name, unit) {
        name
    } else {
        name + "_"@ + unit
    }
}

/// A text without white space at its ends is left as it is.
pub proof fn lemma_trimmed_text_is_unchanged(text: Seq<char>)
    requires
        text.len() > 0 ==> !unicode_whitespace(text.first()) && !unicode_whitespace(text.last()),
    ensures
        trimmed(text) == text,
{
}

/// The first `c` of a text that holds none, with a `c` put behind it, is the
/// one that was put there.
proof fn lemma_first_index_behind(text: Seq<char>, c: char)
    requires
        !text.contains(c),
    ensures
        first_index_of(text + seq![c], c) == text.len(),
    decreases text.len(),
{
    if text.len() > 0 {
        let rest = text.drop_first();
        assert(text.contains(text.first()));
        assert forall|i: int| 0 <= i < rest.len() implies rest[i] != c by {
            assert(text.contains(text[i + 1]));
        }
        lemma_first_index_behind(rest, c);
        assert((text + seq![c]).drop_first() =~= rest + seq![c]);
    }
}

/// A unit that is nothing but a text between brackets comes to no unit at
/// all.
pub proof fn lemma_annotation_comes_to_nothing(inner: Seq<char>)
    requires
        !inner.contains('}'),
    ensures
        converted_unit(seq!['{'] + inner + seq!['}']) == Seq::<char>::empty(),
{
    let unit = seq!['{'] + inner + seq!['}'];
    lemma_trimmed_text_is_unchanged(unit);
    let rest = unit.subrange(1, unit.len() as int);
    assert(rest =~= inner + seq!['}']);
    lemma_first_index_behind(inner, '}');
    assert(bracket_span(unit) == Some((0int, unit.len() - 1)));
    assert(without_brackets(unit) =~= Seq::<char>::empty());
    reveal_strlit("1");
    reveal_strlit("ms");
    reveal_strlit("s");
    reveal_strlit("m");
    reveal_strlit("kg");
    reveal_strlit("g");
    reveal_strlit("b");
    reveal_strlit("bytes");
    reveal_strlit("By");
    reveal_strlit("%");
}

/// `text` without the white space at either end.
pub fn trim<'a>(text: &'a str) -> (inner: &'a str)
    ensures
        inner@ == trimmed(text@),
{
    let chars = chars_of(text);
    let mut start: usize = 0;
    proof {
        assert(text@.subrange(0, text@.len() as int) =~= text@);
    }
    while start < chars.len()
        invariant
            start <= chars.len(),
            chars@ == text@,
            trimmed_start(text@) == trimmed_start(text@.subrange(start as int, text@.len() as int)),
        ensures
            start <= chars.len(),
            trimmed_start(text@) == text@.subrange(start as int, text@.len() as int),
        decreases chars.len() - start,
    {
        let ghost rest = text@.subrange(start as int, text@.len() as int);
        if !is_whitespace(chars[start]) {
            break ;
        }
        proof {
            assert(rest.drop_first() =~= text@.subrange(start + 1, text@.len() as int));
        }
        start += 1;
    }
    let ghost front = text@.subrange(start as int, text@.len() as int);
    let mut end: usize = chars.len();
    while end > start
        invariant
            start <= end <= chars.len(),
            chars@ == text@,
            trimmed_end(front) == trimmed_end(text@.subrange(start as int, end as int)),
        ensures
            start <= end <= chars.len(),
            trimmed_end(front) == text@.subrange(start as int, end as int),
        decreases end - start,
    {
        let ghost rest = text@.subrange(start as int, end as int);
        if !is_whitespace(chars[end - 1]) {
            break ;
        }
        proof {
            assert(rest.drop_last() =~= text@.subrange(start as int, end - 1));
        }
        end -= 1;
    }
    text.substring_char(start, end)
}

/// The position of the first `c` at or behind `from`, or the length of
/// `chars` where none is left.
pub fn index_from(chars: &Vec<char>, from: usize, c: char) -> (at: usize)
    requires
        from <= chars.len(),
    ensures
        from <= at <= chars.len(),
        at == from + first_index_of(chars@.subrange(from as int, chars.len() as int), c),
{
    let mut at: usize = from;
    while at < chars.len()
        invariant
            from <= at <= chars.len(),
            from + first_index_of(chars@.subrange(from as int, chars.len() as int), c) == at
                + first_index_of(chars@.subrange(at as int, chars.len() as int), c),
        ensures
            from <= at <= chars.len(),
            at == from + first_index_of(chars@.subrange(from as int, chars.len() as int), c),
        decreases chars.len() - at,
    {
        let ghost rest = chars@.subrange(at as int, chars.len() as int);
        if chars[at] == c {
            break ;
        }
        proof {
            assert(rest.drop_first() =~= chars@.subrange(at + 1, chars.len() as int));
        }
        at += 1;
    }
    at
}

/// Whether `chars` holds `c`.
pub fn contains_char(chars: &Vec<char>, c: char) -> (found: bool)
    ensures
        found == chars@.contains(c),
{
    let mut i: usize = 0;
    while i < chars.len()
        invariant
            i <= chars.len(),
            forall|j: int| 0 <= j < i ==> chars@[j] != c,
        decreases chars.len() - i,
    {
        if chars[i] == c {
            return true;
        }
        i += 1;
    }
    false
}

/// `unit` with `_per_` in place of each `/`.
pub fn replace_slashes(unit: &Vec<char>) -> (out: String)
    ensures
        out@ == slashes_replaced(unit@),
{
    let mut out = String::new();
    let mut i: usize = 0;
    while i < unit.len()
        invariant
            i <= unit.len(),
            out@ == slashes_replaced(unit@.take(i as int)),
        decreases unit.len() - i,
    {
        proof {
            assert(unit@.take(i + 1).drop_last() =~= unit@.take(i as int));
        }
        if unit[i] == '/' {
            out.append("_per_");
        } else {
            push_char(&mut out, unit[i]);
        }
        i += 1;
    }
    proof {
        assert(unit@.take(unit.len() as int) =~= unit@);
    }
    out
}

/// `unit` without its first bracketed span.
///
/// Where what is left is one piece of `unit`, that piece is handed back.
pub fn strip_brackets<'a>(unit: &'a str) -> (bare: Cow<'a, str>)
    ensures
        bare@ == without_brackets(unit@),
        (bare matches Cow::Owned(_)) == (match bracket_span(unit@) {
            Some((open, close)) => 0 < open && close + 1 < unit@.len(),
            None => false,
        }),
{
    let chars = chars_of(unit);
    let open = index_from(&chars, 0, '{');
    proof {
        assert(chars@.subrange(0, chars.len() as int) =~= chars@);
    }
    if open >= chars.len() {
        return Cow::Borrowed(unit);
    }
    let close = index_from(&chars, open + 1, '}');
    if close >= chars.len() {
        return Cow::Borrowed(unit);
    }
    if open == 0 {
        let after = unit.substring_char(close + 1, chars.len());
        Cow::Borrowed(after)
    } else if close + 1 == chars.len() {
        let before = unit.substring_char(0, open);
        Cow::Borrowed(before)
    } else {
        let mut joined = String::new();
        append_chars(&mut joined, &chars, 0, open);
        append_chars(&mut joined, &chars, close + 1, chars.len());
        Cow::Owned(joined)
    }
}

/// Converts a unit that has no white space around it.
///
/// New text is made only where the result is neither a part of `unit` nor a
/// fixed word.
pub fn convert_trimmed<'a>(unit: &'a str) -> (word: Cow<'a, str>)
    ensures
        word@ == converted(unit@),
        (word matches Cow::Owned(_)) == conversion_is_new_text(unit@),
{
    if unit.is_empty() {
        proof {
            reveal_strlit("");
        }
        return Cow::Borrowed("");
    }
    let bare = strip_brackets(unit);
    let bare_text = cow_text(&bare);
    if text_eq(bare_text, "1") {
        return Cow::Borrowed("ratio");
    }
    let bare_chars = chars_of(bare_text);
    if contains_char(&bare_chars, '/') {
        return Cow::Owned(replace_slashes(&bare_chars));
    }
    if text_eq(bare_text, "ms") {
        Cow::Borrowed("milliseconds")
    } else if text_eq(bare_text, "s") {
        Cow::Borrowed("seconds")
    } else if text_eq(bare_text, "m") {
        Cow::Borrowed("meters")
    } else if text_eq(bare_text, "kg") {
        Cow::Borrowed("kilograms")
    } else if text_eq(bare_text, "g") {
        Cow::Borrowed("grams")
    } else if text_eq(bare_text, "b") || text_eq(bare_text, "bytes") || text_eq(bare_text, "By") {
        Cow::Borrowed("bytes")
    } else if text_eq(bare_text, "%") {
        Cow::Borrowed("percent")
    } else {
        bare
    }
}

/// Converts a unit to the word that Prometheus uses for it.
pub fn convert_unit<'a>(unit: &'a str) -> (word: Cow<'a, str>)
    ensures
        word@ == converted_unit(unit@),
        (word matches Cow::Owned(_)) == conversion_is_new_text(trimmed(unit@)),
{
    convert_trimmed(trim(unit))
}

/// Adds the unit to a metric name, unless the name ends with it already.
pub fn add_unit_suffix<'a>(name: &'a str, unit: &str) -> (full: Cow<'a, str>)
    ensures
        full@ == with_unit_suffix(name@, unit@),
        (full matches Cow::Borrowed(_)) == (unit@.len() == 0 || ends_with(name@, unit@)),
{
    if unit.is_empty() || text_ends_with(name, unit) {
        Cow::Borrowed(name)
    } else {
        let mut full = String::from_str(name);
        full.append("_");
        full.append(unit);
        Cow::Owned(full)
    }
}

} // verus!
