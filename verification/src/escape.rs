//! Text made safe for a line of the output.

use crate::text::push_char;
use vstd::prelude::*;

verus! {

/// What stands for one character of a description: a backslash is doubled,
/// and a line feed, a tab and a carriage return are spelled `\n`, `\t` and
/// `\r`.
pub open spec fn escaped_help_char(c: char) -> Seq<char> {
    if c == '\\' {
        "\\\\"@
    } else if c == '\n' {
        "\\n"@
    } else if c == '\t' {
        "\\t"@
    } else if c == '\r' {
        "\\r"@
    } else {
        seq![c]
    }
}

/// A description with each character escaped.
pub open spec fn escaped_help(text: Seq<char>) -> Seq<char>
    decreases text.len(),
{
    if text.len() == 0 {
        text
    } else {
        escaped_help(text.drop_last()) + escaped_help_char(text.last())
    }
}

/// An escaped description stays on its line: it holds no line feed, no tab
/// and no carriage return.
pub proof fn lemma_escaped_help_is_one_line(text: Seq<char>)
    ensures
        forall|i: int|
            0 <= i < escaped_help(text).len() ==> {
                let c = #[trigger] escaped_help(text)[i];
                c != '\n' && c != '\t' && c != '\r'
            },
    decreases text.len(),
{
    reveal_strlit("\\\\");
    reveal_strlit("\\n");
    reveal_strlit("\\t");
    reveal_strlit("\\r");
    if text.len() > 0 {
        let front = escaped_help(text.drop_last());
        let all = escaped_help(text);
        lemma_escaped_help_is_one_line(text.drop_last());
        assert forall|i: int| 0 <= i < all.len() implies {
            let c = #[trigger] all[i];
            c != '\n' && c != '\t' && c != '\r'
        } by {
            if i < front.len() {
                assert(all[i] == front[i]);
            } else {
                assert(all[i] == escaped_help_char(text.last())[i - front.len()]);
            }
        }
    }
}

/// A description without a backslash, a line feed, a tab or a carriage
/// return is left as it is.
pub proof fn lemma_plain_help_is_unchanged(text: Seq<char>)
    requires
        forall|i: int|
            0 <= i < text.len() ==> {
                let c = #[trigger] text[i];
                c != '\\' && c != '\n' && c != '\t' && c != '\r'
            },
    ensures
        escaped_help(text) == text,
    decreases text.len(),
{
    if text.len() > 0 {
        let front = text.drop_last();
        assert forall|i: int| 0 <= i < front.len() implies {
            let c = #[trigger] front[i];
            c != '\\' && c != '\n' && c != '\t' && c != '\r'
        } by {
            assert(front[i] == text[i]);
        }
        lemma_plain_help_is_unchanged(front);
        let c = text[text.len() - 1];
        assert(c == text.last());
        assert(front + seq![c] =~= text);
    }
}

/// A text between double quotes, escaped as the `Debug` form of `str` escapes
/// it.
pub uninterp spec fn debug_quoted(text: Seq<char>) -> Seq<char>;

/// Puts `text` between double quotes and escapes what is in it.
///
/// Formats a `str` with `{:?}`. The result depends on the characters of the
/// text alone.
#[verifier::external_body]
pub(crate) fn debug_quote(text: &str) -> (quoted: String)
    ensures
        quoted@ == debug_quoted(text@),
{
    format!("{:?}", text)
}

/// Escapes a description for a `# HELP` line.
pub fn escape_help_text(text: &str) -> (escaped: String)
    ensures
        escaped@ == escaped_help(text@),
{
    let mut escaped = String::new();
    for c in it: text.chars()
        invariant
            it.seq() == text@,
            escaped@ == escaped_help(text@.take(it.index() as int)),
    {
        proof {
            let i = it.index() as int;
            assert(text@.take(i + 1).drop_last() =~= text@.take(i));
            assert(text@.take(i + 1).last() == c);
        }
        if c == '\\' {
            escaped.append("\\\\");
        } else if c == '\n' {
            escaped.append("\\n");
        } else if c == '\t' {
            escaped.append("\\t");
        } else if c == '\r' {
            escaped.append("\\r");
        } else {
            push_char(&mut escaped, c);
        }
    }
    proof {
        assert(text@.take(text@.len() as int) =~= text@);
    }
    escaped
}

} // verus!
