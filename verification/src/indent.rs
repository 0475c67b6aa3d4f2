//! Removal of common indentation from generated text, done by the `unindent`
//! crate.

use vstd::prelude::*;
use vstd::utf8::encode_utf8;

verus! {

/// Whether a character counts as indentation: a space or a tab.
pub open spec fn is_indent(c: char) -> bool {
    c == ' ' || c == '\t'
}

/// Whether some line of `text` after the first is not empty and begins with
/// a character that is no indentation. Such a text has no indentation that
/// all its lines share.
pub open spec fn has_unindented_line(text: Seq<char>) -> bool {
    exists|i: int|
        0 < i < text.len() && text[i - 1] == '\n' && !is_indent(#[trigger] text[i]) && text[i]
            != '\n'
}

/// Whether `text` has no indentation to remove: one of its lines after the
/// first is not indented, and it does not begin with a carriage return.
pub open spec fn is_flush(text: Seq<char>) -> bool {
    has_unindented_line(text) && (text.len() > 0 ==> text[0] != '\r')
}

/// `text` without the line break that it begins with, if it begins with one.
pub open spec fn without_leading_break(text: Seq<char>) -> Seq<char> {
    if text.len() > 0 && text[0] == '\n' {
        text.drop_first()
    } else {
        text
    }
}

/// A text is flush where a line break in it is followed by a character that
/// is neither indentation nor another line break, and it does not begin
/// with a carriage return.
pub proof fn lemma_flush(text: Seq<char>, at: int)
    requires
        0 < at < text.len(),
        text[at - 1] == '\n',
        !is_indent(text[at]),
        text[at] != '\n',
        text[0] != '\r',
    ensures
        is_flush(text),
{
}

/// Calls `unindent::unindent`, which removes from every line but the first
/// the indentation that those lines share, and removes the first line where
/// it is empty. The contract is for flush text only: there the shared
/// indentation is empty, and the contract says that the result is the text
/// without the line break at its start. Nothing is proved of this.
#[verifier::external_body]
pub(crate) fn unindent_text(text: &str) -> (r: String)
    requires
        is_flush(text@),
    ensures
        r@ == without_leading_break(text@),
{
    unindent::unindent(text)
}

/// Calls `unindent::unindent_bytes` on the bytes of `text`, which removes
/// from every line but the first the indentation that those lines share,
/// and removes the first line where it is empty. The contract is for flush
/// text only: there the shared indentation is empty, and the contract says
/// that the result is the bytes of the text without the line break at its
/// start. It rests on the bytes of a text having line breaks, spaces and tabs
/// where the text has them and nowhere else. Nothing is proved of this.
#[verifier::external_body]
pub(crate) fn unindent_octets(text: &str) -> (r: Vec<u8>)
    requires
        is_flush(text@),
    ensures
        r@ == encode_utf8(without_leading_break(text@)),
{
    unindent::unindent_bytes(text.as_bytes())
}

} // verus!
