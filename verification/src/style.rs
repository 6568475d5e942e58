//! How a listing looks: each line behind its number, the number in cyan
//! italics where the terminal takes colours.

use crate::number::{decimal, decimal_string, is_digit, lemma_decimal_denotes};
use crate::text::push_char;
use vstd::prelude::*;

verus! {

/// The escape sequence that switches italics and cyan on.
pub open spec fn style_start() -> Seq<char> {
    seq!['\u{1b}', '[', '3', ';', '3', '6', 'm']
}

/// The escape sequence that switches every style off.
pub open spec fn style_end() -> Seq<char> {
    seq!['\u{1b}', '[', '0', 'm']
}

/// `text` between the two escape sequences.
pub open spec fn styled(text: Seq<char>) -> Seq<char> {
    style_start() + text + style_end()
}

/// A line of a listing: the label, a space, and the line itself.
pub open spec fn entry(label: Seq<char>, line: Seq<char>) -> Seq<char> {
    label + seq![' '] + line
}

/// Whether `out` is `text` as the terminal is to show it: plain where
/// colours are not in use, between the two escape sequences where they
/// are, and followed by the second alone where colours were switched off
/// while the text was being written.
pub open spec fn is_styling_of(out: Seq<char>, text: Seq<char>) -> bool {
    ||| out == text
    ||| out == styled(text)
    ||| out == text + style_end()
}

/// Whether `out` is the line of a listing for the line `line` with the
/// number `number`.
pub open spec fn is_display_line(out: Seq<char>, number: nat, line: Seq<char>) -> bool {
    exists|label: Seq<char>| #[trigger]
        is_styling_of(label, decimal(number)) && out == entry(label, line)
}

/// Styles a text as cyan italics, through `Colorize::cyan`,
/// `Colorize::italic` and the `Display` impl of `ColoredString` in the
/// `colored` crate. Whether colours are in use is decided by the
/// environment, the terminal and an override that any thread may set, and
/// it is asked more than once while the text is written. So the contract
/// allows every outcome: the text as it is; the text between the escape
/// sequence for italics and cyan and the one that resets; and the text
/// followed by the reset alone. A text with an escape character in it
/// might hold a reset sequence, which `colored` treats specially; such a
/// text is left out.
#[verifier::external_body]
fn cyan_italic(text: &str) -> (result: String)
    requires
        !text@.contains('\u{1b}'),
    ensures
        is_styling_of(result@, text@),
{
    format!("{}", colored::Colorize::italic(colored::Colorize::cyan(text)))
}

/// The label that a listing shows for the line number `number`.
pub fn number_label(number: usize) -> (label: String)
    ensures
        is_styling_of(label@, decimal(number as nat)),
{
    let plain = decimal_string(number);
    proof {
        lemma_decimal_denotes(number as nat);
        assert forall|i: int| 0 <= i < plain@.len() implies plain@[i] != '\u{1b}' by {
            assert(is_digit(plain@[i]));
        }
    }
    cyan_italic(plain.as_str())
}

/// Puts a label in front of a line, a space between them.
pub fn display_entry(label: &str, line: &str) -> (result: String)
    ensures
        result@ == entry(label@, line@),
{
    let mut out = String::from_str(label);
    push_char(&mut out, ' ');
    out.append(line);
    out
}

/// The line of a listing for the line `line` with the number `number`.
pub fn display_line(number: usize, line: &str) -> (result: String)
    ensures
        is_display_line(result@, number as nat, line@),
{
    let label = number_label(number);
    display_entry(label.as_str(), line)
}

} // verus!
