//! Small operations on text that the encoder is built from.
//!
//! Text is modelled as a sequence of characters: the view of `str` and
//! `String`.

use std::borrow::Cow;
use vstd::prelude::*;

verus! {

/// Whether `text` ends with `suffix`.
pub open spec fn ends_with(text: Seq<char>, suffix: Seq<char>) -> bool {
    suffix.len() <= text.len() && text.subrange(text.len() - suffix.len(), text.len() as int)
        == suffix
}

/// Appends one character to `text`.
///
/// Calls `String::push`: the character is added at the end and nothing else
/// changes.
#[verifier::external_body]
pub(crate) fn push_char(text: &mut String, c: char)
    ensures
        final(text)@ == old(text)@.push(c),
{
    text.push(c);
}

/// The characters of `text`, in order.
pub fn chars_of(text: &str) -> (chars: Vec<char>)
    ensures
        chars@ == text@,
{
    let mut chars: Vec<char> = Vec::new();
    for c in it: text.chars()
        invariant
            chars@ == it.seq().take(it.index() as int),
            it.seq() == text@,
    {
        chars.push(c);
    }
    chars
}

/// Appends the characters `chars[from..to]` to `out`.
pub fn append_chars(out: &mut String, chars: &Vec<char>, from: usize, to: usize)
    requires
        from <= to <= chars.len(),
    ensures
        final(out)@ == old(out)@ + chars@.subrange(from as int, to as int),
{
    let mut i: usize = from;
    while i < to
        invariant
            from <= i <= to <= chars.len(),
            out@ == old(out)@ + chars@.subrange(from as int, i as int),
        decreases to - i,
    {
        push_char(out, chars[i]);
        i += 1;
    }
}

/// Whether two texts hold the same characters.
pub fn text_eq(a: &str, b: &str) -> (same: bool)
    ensures
        same == (a@ == b@),
{
    let x = chars_of(a);
    let y = chars_of(b);
    if x.len() != y.len() {
        return false;
    }
    let mut i: usize = 0;
    while i < x.len()
        invariant
            i <= x.len(),
            x.len() == y.len(),
            x@ == a@,
            y@ == b@,
            forall|j: int| 0 <= j < i ==> x@[j] == y@[j],
        decreases x.len() - i,
    {
        if x[i] != y[i] {
            return false;
        }
        i += 1;
    }
    proof {
        assert(x@ =~= y@);
    }
    true
}

/// Whether `text` ends with `suffix`.
pub fn text_ends_with(text: &str, suffix: &str) -> (ends: bool)
    ensures
        ends == ends_with(text@, suffix@),
{
    let x = chars_of(text);
    let y = chars_of(suffix);
    if y.len() > x.len() {
        return false;
    }
    let start: usize = x.len() - y.len();
    let mut i: usize = 0;
    while i < y.len()
        invariant
            i <= y.len(),
            start + y.len() == x.len(),
            x@ == text@,
            y@ == suffix@,
            forall|j: int| 0 <= j < i ==> x@[start + j] == y@[j],
        decreases y.len() - i,
    {
        if x[start + i] != y[i] {
            proof {
                let tail = x@.subrange(x@.len() - y@.len(), x@.len() as int);
                assert(tail[i as int] == x@[start + i]);
            }
            return false;
        }
        i += 1;
    }
    proof {
        assert(x@.subrange(x@.len() - y@.len(), x@.len() as int) =~= y@);
    }
    true
}

/// The text that a borrowed-or-owned text holds.
pub fn cow_text<'a, 'b>(text: &'b Cow<'a, str>) -> (inner: &'b str)
    ensures
        inner@ == text@,
{
    match text {
        Cow::Borrowed(borrowed) => borrowed,
        Cow::Owned(owned) => owned.as_str(),
    }
}

} // verus!
