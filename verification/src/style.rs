//! Terminal styling and ANSI escape removal, done by `owo-colors` and
//! `anstream`.
use owo_colors::OwoColorize;
use vstd::prelude::*;

verus! {

/// The escape sequence `ESC [ code m`.
pub open spec fn sgr(code: Seq<char>) -> Seq<char> {
    seq!['\u{1b}', '['] + code + seq!['m']
}

/// `text` in the foreground colour with SGR code `colour`, as `owo-colors`
/// writes it: colour on, the text, default foreground.
pub open spec fn fg(colour: Seq<char>, text: Seq<char>) -> Seq<char> {
    sgr(colour) + text + sgr(seq!['3', '9'])
}

/// `text` with the style of SGR code `style`, as `owo-colors` writes it:
/// style on, the text, reset.
pub open spec fn styled(style: Seq<char>, text: Seq<char>) -> Seq<char> {
    sgr(style) + text + sgr(seq!['0'])
}

/// `text` set in bold and in the foreground colour with SGR code `colour`,
/// as `owo-colors` writes `text.<colour>().bold()`: bold on, colour on, the
/// text, default foreground, reset.
pub open spec fn bold_coloured(colour: Seq<char>, text: Seq<char>) -> Seq<char> {
    styled(seq!['1'], fg(colour, text))
}

/// `text` in bold yellow.
pub open spec fn bold_yellow(text: Seq<char>) -> Seq<char> {
    bold_coloured(seq!['3', '3'], text)
}

/// `text` in bold red.
pub open spec fn bold_red(text: Seq<char>) -> Seq<char> {
    bold_coloured(seq!['3', '1'], text)
}

/// `text` in bold green.
pub open spec fn bold_green(text: Seq<char>) -> Seq<char> {
    bold_coloured(seq!['3', '2'], text)
}

/// `text` in red.
pub open spec fn red(text: Seq<char>) -> Seq<char> {
    fg(seq!['3', '1'], text)
}

/// `text` in yellow.
pub open spec fn yellow(text: Seq<char>) -> Seq<char> {
    fg(seq!['3', '3'], text)
}

/// `text` in cyan.
pub open spec fn cyan(text: Seq<char>) -> Seq<char> {
    fg(seq!['3', '6'], text)
}

/// `text` dimmed.
pub open spec fn dimmed(text: Seq<char>) -> Seq<char> {
    styled(seq!['2'], text)
}

/// Renders `text.yellow().bold()` of `owo-colors` (`OwoColorize::yellow`,
/// then `OwoColorize::bold`) to a string. The contract states the bytes that
/// the `Display` impls of `BoldDisplay` and `FgColorDisplay` write: `ESC[1m`,
/// `ESC[33m`, the text, `ESC[39m`, `ESC[0m`.
#[verifier::external_body]
pub(crate) fn paint_bold_yellow(text: &str) -> (r: String)
    ensures
        r@ == bold_yellow(text@),
{
    format!("{}", text.yellow().bold())
}

/// Renders `text.red().bold()` of `owo-colors` to a string: `ESC[1m`,
/// `ESC[31m`, the text, `ESC[39m`, `ESC[0m`.
#[verifier::external_body]
pub(crate) fn paint_bold_red(text: &str) -> (r: String)
    ensures
        r@ == bold_red(text@),
{
    format!("{}", text.red().bold())
}

/// Renders `text.green().bold()` of `owo-colors` to a string: `ESC[1m`,
/// `ESC[32m`, the text, `ESC[39m`, `ESC[0m`.
#[verifier::external_body]
pub(crate) fn paint_bold_green(text: &str) -> (r: String)
    ensures
        r@ == bold_green(text@),
{
    format!("{}", text.green().bold())
}

/// Renders `text.red()` of `owo-colors` (`FgColorDisplay` with `Red`) to
/// a string: `ESC[31m`, the text, `ESC[39m`.
#[verifier::external_body]
pub(crate) fn paint_red(text: &str) -> (r: String)
    ensures
        r@ == red(text@),
{
    format!("{}", text.red())
}

/// Renders `text.yellow()` of `owo-colors` (`FgColorDisplay` with
/// `Yellow`) to a string: `ESC[33m`, the text, `ESC[39m`.
#[verifier::external_body]
pub(crate) fn paint_yellow(text: &str) -> (r: String)
    ensures
        r@ == yellow(text@),
{
    format!("{}", text.yellow())
}

/// Renders `text.cyan()` of `owo-colors` (`FgColorDisplay` with `Cyan`) to
/// a string: `ESC[36m`, the text, `ESC[39m`.
#[verifier::external_body]
pub(crate) fn paint_cyan(text: &str) -> (r: String)
    ensures
        r@ == cyan(text@),
{
    format!("{}", text.cyan())
}

/// Renders `text.dimmed()` of `owo-colors` (`DimDisplay`) to a string:
/// `ESC[2m`, the text, `ESC[0m`.
#[verifier::external_body]
pub(crate) fn paint_dimmed(text: &str) -> (r: String)
    ensures
        r@ == dimmed(text@),
{
    format!("{}", text.dimmed())
}

/// What `anstream::adapter::strip_str` leaves of a string: its printable
/// content, without ANSI escape sequences.
pub uninterp spec fn ansi_stripped(s: Seq<char>) -> Seq<char>;

/// Calls `anstream::adapter::strip_str` and collects the printable content.
/// The contract only names the result; the escape-sequence parser of
/// `anstream` is not restated here.
#[verifier::external_body]
pub(crate) fn strip_ansi(s: &str) -> (r: String)
    ensures
        r@ == ansi_stripped(s@),
{
    anstream::adapter::strip_str(s).to_string()
}

} // verus!
