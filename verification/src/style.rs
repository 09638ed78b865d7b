//! Terminal styling of display text with ANSI escape sequences.

use owo_colors::OwoColorize;
use vstd::prelude::*;
use vstd::string::*;

verus! {

/// Text wrapped in the escape sequences for a red foreground.
pub open spec fn red(text: Seq<char>) -> Seq<char> {
    "\x1b[31m"@ + text + "\x1b[39m"@
}

/// Text wrapped in the escape sequences for a green foreground.
pub open spec fn green(text: Seq<char>) -> Seq<char> {
    "\x1b[32m"@ + text + "\x1b[39m"@
}

/// Text wrapped in the escape sequences for bold type.
pub open spec fn bold(text: Seq<char>) -> Seq<char> {
    "\x1b[1m"@ + text + "\x1b[0m"@
}

/// `OwoColorize::red`, rendered through `Display`: the foreground is set to
/// red (code 31) before the text and to the default (code 39) after it.
#[verifier::external_body]
pub(crate) fn paint_red(text: &str) -> (styled: String)
    ensures
        styled@ == red(text@),
{
    text.red().to_string()
}

/// `OwoColorize::green`, rendered through `Display`: the foreground is set to
/// green (code 32) before the text and to the default (code 39) after it.
#[verifier::external_body]
pub(crate) fn paint_green(text: &str) -> (styled: String)
    ensures
        styled@ == green(text@),
{
    text.green().to_string()
}

/// `OwoColorize::bold`, rendered through `Display`: bold (code 1) is switched
/// on before the text and every attribute is reset (code 0) after it.
#[verifier::external_body]
pub(crate) fn embolden(text: &str) -> (styled: String)
    ensures
        styled@ == bold(text@),
{
    text.bold().to_string()
}

} // verus!
