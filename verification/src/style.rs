//! Terminal styling: colours and emphasis, written as ANSI escape sequences.

use owo_colors::{AnsiColors, DynColors, OwoColorize};
use vstd::prelude::*;

use crate::number::decimal;

verus! {

/// A colour by its red, green and blue parts.
#[derive(Clone, Copy, Debug, PartialEq, Eq, Structural)]
pub struct Rgb(pub u8, pub u8, pub u8);

/// The escape sequence that switches the foreground to `color`.
pub open spec fn foreground(color: Rgb) -> Seq<char> {
    "\x1b[38;2;"@ + decimal(color.0 as nat) + ";"@ + decimal(color.1 as nat) + ";"@ + decimal(
        color.2 as nat,
    ) + "m"@
}

/// `text` shown in `color`: the colour is switched on before the text and
/// the default foreground is restored after it.
pub open spec fn painted(text: Seq<char>, color: Rgb) -> Seq<char> {
    foreground(color) + text + "\x1b[39m"@
}

/// `text` shown in the terminal's cyan.
pub open spec fn cyan(text: Seq<char>) -> Seq<char> {
    "\x1b[36m"@ + text + "\x1b[39m"@
}

/// `text` shown in bold; all attributes are reset after it.
pub open spec fn bold(text: Seq<char>) -> Seq<char> {
    "\x1b[1m"@ + text + "\x1b[0m"@
}

/// `text` as the report highlights it: bold cyan.
pub open spec fn accented(text: Seq<char>) -> Seq<char> {
    bold(cyan(text))
}

/// `OwoColorize::color` of owo-colors with `DynColors::Rgb`, written out
/// through `Display`. The crate writes `ESC[38;2;R;G;Bm` with the three
/// parts in decimal, then the text unchanged, then `ESC[39m`.
#[verifier::external_body]
pub(crate) fn paint(text: &str, color: Rgb) -> (out: String)
    ensures
        out@ == painted(text@, color),
{
    format!("{}", text.color(DynColors::Rgb(color.0, color.1, color.2)))
}

/// `OwoColorize::color` of owo-colors with `AnsiColors::Cyan`, written out
/// through `Display`. The crate writes `ESC[36m`, then the text unchanged,
/// then `ESC[39m`.
#[verifier::external_body]
pub(crate) fn paint_cyan(text: &str) -> (out: String)
    ensures
        out@ == cyan(text@),
{
    format!("{}", text.color(AnsiColors::Cyan))
}

/// `OwoColorize::bold` of owo-colors, written out through `Display`. The
/// crate writes `ESC[1m`, then the text unchanged, then `ESC[0m`.
#[verifier::external_body]
pub(crate) fn embolden(text: &str) -> (out: String)
    ensures
        out@ == bold(text@),
{
    format!("{}", text.bold())
}

/// Highlights a label or a name: cyan, then bold around it.
pub fn accent(text: &str) -> (out: String)
    ensures
        out@ == accented(text@),
{
    let coloured = paint_cyan(text);
    embolden(coloured.as_str())
}

} // verus!
