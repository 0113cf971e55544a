//! Names that Prometheus accepts.
//!
//! A metric or label name must match `[A-Za-z_:][A-Za-z0-9_:]*`. Any text is
//! turned into such a name: a character that may not stand where it stands
//! becomes `_`, and a run of underscores becomes a single one.

use crate::text::{chars_of, push_char};
use std::borrow::Cow;
use vstd::prelude::*;

verus! {

/// `a` to `z` and `A` to `Z`.
pub open spec fn is_ascii_letter(c: char) -> bool {
    ('a' <= c && c <= 'z') || ('A' <= c && c <= 'Z')
}

/// `0` to `9`.
pub open spec fn is_ascii_digit(c: char) -> bool {
    '0' <= c && c <= '9'
}

/// The characters that may start a name.
pub open spec fn is_name_start(c: char) -> bool {
    is_ascii_letter(c) || c == '_' || c == ':'
}

/// The characters that may follow the first one.
pub open spec fn is_name_char(c: char) -> bool {
    is_name_start(c) || is_ascii_digit(c)
}

/// Whether the character at position `i` may stand there.
pub open spec fn legal_at(name: Seq<char>, i: int) -> bool {
    if i == 0 {
        is_name_start(name[i])
    } else {
        is_name_char(name[i])
    }
}

/// A name that needs no change: every character is legal where it stands and
/// no underscore follows another. The empty name is one.
pub open spec fn is_valid_name(name: Seq<char>) -> bool {
    &&& forall|i: int| 0 <= i < name.len() ==> legal_at(name, i)
    &&& forall|i: int| 0 < i < name.len() ==> !(name[i - 1] == '_' && #[trigger] name[i] == '_')
}

/// `name` with `_` in place of each character that is not legal where it
/// stands.
pub open spec fn replaced(name: Seq<char>) -> Seq<char> {
    Seq::new(
        name.len(),
        |i: int|
            if legal_at(name, i) {
                name[i]
            } else {
                '_'
            },
    )
}

/// `text` without the underscores that directly follow an underscore.
pub open spec fn collapsed(text: Seq<char>) -> Seq<char>
    decreases text.len(),
{
    if text.len() == 0 {
        text
    } else if text.len() >= 2 && text[text.len() - 2] == '_' && text.last() == '_' {
        collapsed(text.drop_last())
    } else {
        collapsed(text.drop_last()).push(text.last())
    }
}

/// The name that stands for `name` in the output.
pub open spec fn sanitized(name: Seq<char>) -> Seq<char> {
    collapsed(replaced(name))
}

/// Collapsing keeps the first and the last character.
pub proof fn lemma_collapsed_ends(text: Seq<char>)
    requires
        text.len() > 0,
    ensures
        collapsed(text).len() > 0,
        collapsed(text).first() == text.first(),
        collapsed(text).last() == text.last(),
    decreases text.len(),
{
    let front = text.drop_last();
    if text.len() >= 2 {
        lemma_collapsed_ends(front);
    } else {
        assert(collapsed(front) == front);
    }
}

/// Collapsing leaves no underscore behind an underscore.
pub proof fn lemma_collapsed_has_no_runs(text: Seq<char>)
    ensures
        forall|i: int|
            0 < i < collapsed(text).len() ==> !(collapsed(text)[i - 1] == '_'
                && #[trigger] collapsed(text)[i] == '_'),
    decreases text.len(),
{
    if text.len() > 0 {
        let front = text.drop_last();
        let kept = collapsed(front);
        lemma_collapsed_has_no_runs(front);
        if text.len() >= 2 {
            lemma_collapsed_ends(front);
        }
        assert forall|i: int| 0 < i < collapsed(text).len() implies !(collapsed(text)[i - 1] == '_'
            && #[trigger] collapsed(text)[i] == '_') by {
            if i < kept.len() {
                assert(collapsed(text)[i] == kept[i]);
            } else {
                assert(collapsed(text)[i - 1] == kept.last());
            }
        }
    }
}

/// Collapsing text made of name characters leaves text made of name
/// characters.
pub proof fn lemma_collapsed_keeps_name_chars(text: Seq<char>)
    requires
        forall|i: int| 0 <= i < text.len() ==> is_name_char(#[trigger] text[i]),
    ensures
        forall|i: int| 0 <= i < collapsed(text).len() ==> is_name_char(#[trigger] collapsed(text)[i]),
    decreases text.len(),
{
    if text.len() > 0 {
        let front = text.drop_last();
        assert forall|i: int| 0 <= i < front.len() implies is_name_char(#[trigger] front[i]) by {}
        lemma_collapsed_keeps_name_chars(front);
        let kept = collapsed(front);
        assert forall|i: int| 0 <= i < collapsed(text).len() implies is_name_char(
            #[trigger] collapsed(text)[i],
        ) by {
            if i < kept.len() {
                assert(collapsed(text)[i] == kept[i]);
            } else {
                assert(collapsed(text)[i] == text.last());
            }
        }
    }
}

/// Text without a run of underscores is left as it is.
pub proof fn lemma_collapsed_without_runs(text: Seq<char>)
    requires
        forall|i: int| 0 < i < text.len() ==> !(text[i - 1] == '_' && #[trigger] text[i] == '_'),
    ensures
        collapsed(text) == text,
    decreases text.len(),
{
    if text.len() > 0 {
        let front = text.drop_last();
        assert forall|i: int| 0 < i < front.len() implies !(front[i - 1] == '_'
            && #[trigger] front[i] == '_') by {}
        lemma_collapsed_without_runs(front);
    }
}

/// A valid name is its own sanitized form.
pub proof fn lemma_valid_name_is_unchanged(name: Seq<char>)
    requires
        is_valid_name(name),
    ensures
        sanitized(name) == name,
{
    assert(replaced(name) =~= name);
    lemma_collapsed_without_runs(name);
}

/// Whatever the text, its sanitized form is a valid name.
pub proof fn lemma_sanitized_is_valid(name: Seq<char>)
    ensures
        is_valid_name(sanitized(name)),
{
    let swapped = replaced(name);
    lemma_collapsed_has_no_runs(swapped);
    lemma_collapsed_keeps_name_chars(swapped);
    if swapped.len() > 0 {
        lemma_collapsed_ends(swapped);
    }
}

/// Sanitizing twice gives what sanitizing once gives.
pub proof fn lemma_sanitized_is_idempotent(name: Seq<char>)
    ensures
        sanitized(sanitized(name)) == sanitized(name),
{
    lemma_sanitized_is_valid(name);
    lemma_valid_name_is_unchanged(sanitized(name));
}

/// Whether `c` may start a name.
pub fn name_start(c: char) -> (legal: bool)
    ensures
        legal == is_name_start(c),
{
    (c >= 'a' && c <= 'z') || (c >= 'A' && c <= 'Z') || c == '_' || c == ':'
}

/// Whether `c` may stand in a name behind the first character.
pub fn name_char(c: char) -> (legal: bool)
    ensures
        legal == is_name_char(c),
{
    name_start(c) || (c >= '0' && c <= '9')
}

/// Whether `name` is a valid name already.
pub fn valid_name(name: &Vec<char>) -> (valid: bool)
    ensures
        valid == is_valid_name(name@),
{
    let mut i: usize = 0;
    while i < name.len()
        invariant
            i <= name.len(),
            forall|j: int| 0 <= j < i ==> legal_at(name@, j),
            forall|j: int| 0 < j < i ==> !(name@[j - 1] == '_' && #[trigger] name@[j] == '_'),
        decreases name.len() - i,
    {
        let c = name[i];
        let legal = if i == 0 {
            name_start(c)
        } else {
            name_char(c)
        };
        if !legal {
            assert(!legal_at(name@, i as int));
            return false;
        }
        if i > 0 && c == '_' && name[i - 1] == '_' {
            return false;
        }
        i += 1;
    }
    true
}

/// Turns `name` into a name that Prometheus accepts.
///
/// A valid name is handed back as it came; any other is rebuilt.
pub fn sanitize_name<'a>(name: &'a str) -> (clean: Cow<'a, str>)
    ensures
        clean@ == sanitized(name@),
        (clean matches Cow::Borrowed(_)) == is_valid_name(name@),
{
    let chars = chars_of(name);
    if valid_name(&chars) {
        proof {
            lemma_valid_name_is_unchanged(name@);
        }
        return Cow::Borrowed(name);
    }
    let mut out = String::new();
    let mut after_underscore = false;
    let mut i: usize = 0;
    while i < chars.len()
        invariant
            i <= chars.len(),
            chars@ == name@,
            out@ == collapsed(replaced(name@).take(i as int)),
            after_underscore == (i > 0 && replaced(name@)[i - 1] == '_'),
        decreases chars.len() - i,
    {
        let c = chars[i];
        let legal = if i == 0 {
            name_start(c)
        } else {
            name_char(c)
        };
        let put = if legal {
            c
        } else {
            '_'
        };
        proof {
            let swapped = replaced(name@);
            assert(swapped.take(i + 1).drop_last() =~= swapped.take(i as int));
        }
        if !(put == '_' && after_underscore) {
            push_char(&mut out, put);
        }
        after_underscore = put == '_';
        i += 1;
    }
    proof {
        assert(replaced(name@).take(chars.len() as int) =~= replaced(name@));
    }
    Cow::Owned(out)
}

} // verus!
