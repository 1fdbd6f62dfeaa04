//! Display widths in terminal columns.
use vstd::prelude::*;
use unicode_width::UnicodeWidthChar;
use unicode_width::UnicodeWidthStr;

verus! {

/// Columns that a character takes on its own; `None` for a control character.
pub uninterp spec fn unicode_width(ch: char) -> Option<usize>;

/// Columns that a text takes as a whole.
pub uninterp spec fn unicode_text_width(text: Seq<char>) -> usize;

/// `UnicodeWidthChar::width`: a table lookup on the character. Printable ASCII
/// takes one column, the C0 control characters have no width, and no character
/// takes more than three columns.
#[verifier::external_body]
pub(crate) fn unicode_char_width(ch: char) -> (r: Option<usize>)
    ensures
        r == unicode_width(ch),
        r is Some ==> r->0 <= 3,
        ' ' <= ch <= '~' ==> r == Some(1usize),
        ch < ' ' ==> r is None,
{
    UnicodeWidthChar::width(ch)
}

/// `UnicodeWidthStr::width`: the columns of a whole text, where some sequences
/// (emoji, ligatures, `\r\n`) take fewer columns than their characters would
/// one by one. A text of printable ASCII takes one column per character.
#[verifier::external_body]
pub(crate) fn unicode_str_width(text: &str) -> (r: usize)
    ensures
        r == unicode_text_width(text@),
        (forall|i: int| 0 <= i < text@.len() ==> ' ' <= #[trigger] text@[i] <= '~') ==> r
            == text@.len(),
{
    UnicodeWidthStr::width(text)
}

/// Columns of a character, none for a control character.
pub open spec fn columns(ch: char) -> nat {
    match unicode_width(ch) {
        Some(n) => n as nat,
        None => 0,
    }
}

/// Columns of `ch`.
pub fn char_columns(ch: char) -> (n: usize)
    ensures
        n == columns(ch),
        n <= 3,
{
    match unicode_char_width(ch) {
        Some(n) => n,
        None => 0,
    }
}

} // verus!
