//! Terminal coloring of diagnostic fragments, through the `colored` crate.
//!
//! Whether escape sequences are actually emitted depends on the process
//! environment (overrides, `NO_COLOR`, whether the stream is a terminal),
//! so each wrapper promises only the two possible shapes of its result:
//! the input passed through, or the input wrapped in one fixed foreground
//! escape sequence.

use colored::Colorize;
use vstd::prelude::*;

verus! {

/// Whether a text is free of the ANSI escape character; coloring such a
/// text cannot interfere with sequences already present in it.
pub open spec fn no_escape(s: Seq<char>) -> bool {
    forall|i: int| 0 <= i < s.len() ==> s[i] != '\u{1b}'
}

/// The text wrapped in the ANSI foreground escape sequence with the given
/// color code, followed by the reset sequence.
pub open spec fn styled(code: Seq<char>, s: Seq<char>) -> Seq<char> {
    seq!['\u{1b}', '['] + code + seq!['m'] + s + seq!['\u{1b}', '[', '0', 'm']
}

/// What coloring a text can produce: the text itself (colorization off) or
/// the text wrapped in the escape sequence for the given color code.
pub open spec fn colorized(r: Seq<char>, code: Seq<char>, s: Seq<char>) -> bool {
    r == s || r == styled(code, s)
}

/// The ANSI foreground color code for red.
pub open spec fn fg_red() -> Seq<char> {
    seq!['3', '1']
}

/// The ANSI foreground color code for yellow.
pub open spec fn fg_yellow() -> Seq<char> {
    seq!['3', '3']
}

/// The ANSI foreground color code for blue.
pub open spec fn fg_blue() -> Seq<char> {
    seq!['3', '4']
}

/// The ANSI foreground color code for cyan.
pub open spec fn fg_cyan() -> Seq<char> {
    seq!['3', '6']
}

/// Relies on `Colorize::red` and the `ColoredString` rendering: the result
/// is the input itself when colorization is off for this process, else the
/// input wrapped in the red foreground escape sequence.
#[verifier::external_body]
pub fn paint_red(s: &str) -> (r: String)
    requires
        no_escape(s@),
    ensures
        colorized(r@, fg_red(), s@),
{
    s.red().to_string()
}

/// Relies on `Colorize::yellow` and the `ColoredString` rendering: the
/// result is the input itself when colorization is off for this process,
/// else the input wrapped in the yellow foreground escape sequence.
#[verifier::external_body]
pub fn paint_yellow(s: &str) -> (r: String)
    requires
        no_escape(s@),
    ensures
        colorized(r@, fg_yellow(), s@),
{
    s.yellow().to_string()
}

/// Relies on `Colorize::blue` and the `ColoredString` rendering: the result
/// is the input itself when colorization is off for this process, else the
/// input wrapped in the blue foreground escape sequence.
#[verifier::external_body]
pub fn paint_blue(s: &str) -> (r: String)
    requires
        no_escape(s@),
    ensures
        colorized(r@, fg_blue(), s@),
{
    s.blue().to_string()
}

/// Relies on `Colorize::cyan` and the `ColoredString` rendering: the result
/// is the input itself when colorization is off for this process, else the
/// input wrapped in the cyan foreground escape sequence.
#[verifier::external_body]
pub fn paint_cyan(s: &str) -> (r: String)
    requires
        no_escape(s@),
    ensures
        colorized(r@, fg_cyan(), s@),
{
    s.cyan().to_string()
}

} // verus!
