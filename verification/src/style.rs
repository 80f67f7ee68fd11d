//! Texts with colours.
use vstd::prelude::*;

verus! {

/// Whether `r` is `text`, or `text` between the escape sequence `start` and the one that ends all
/// styles.
pub open spec fn styled(r: Seq<char>, text: Seq<char>, start: Seq<char>) -> bool {
    r == text || r == start + text + "\x1b[0m"@
}

/// `console::style(..).bold()` as a text. Whether the terminal gets colours is decided elsewhere.
#[verifier::external_body]
pub(crate) fn bold(text: &str) -> (r: String)
    ensures
        styled(r@, text@, "\x1b[1m"@),
{
    console::style(text).bold().to_string()
}

/// `console::style(..).dim()` as a text. Whether the terminal gets colours is decided elsewhere.
#[verifier::external_body]
pub(crate) fn dim(text: &str) -> (r: String)
    ensures
        styled(r@, text@, "\x1b[2m"@),
{
    console::style(text).dim().to_string()
}

/// `console::style(..).red()` as a text. Whether the terminal gets colours is decided elsewhere.
#[verifier::external_body]
pub(crate) fn red(text: &str) -> (r: String)
    ensures
        styled(r@, text@, "\x1b[31m"@),
{
    console::style(text).red().to_string()
}

/// `console::style(..).green()` as a text. Whether the terminal gets colours is decided elsewhere.
#[verifier::external_body]
pub(crate) fn green(text: &str) -> (r: String)
    ensures
        styled(r@, text@, "\x1b[32m"@),
{
    console::style(text).green().to_string()
}

/// `console::style(..).yellow()` as a text. Whether the terminal gets colours is decided elsewhere.
#[verifier::external_body]
pub(crate) fn yellow(text: &str) -> (r: String)
    ensures
        styled(r@, text@, "\x1b[33m"@),
{
    console::style(text).yellow().to_string()
}

/// `console::style(..).underlined()` as a text. Whether the terminal gets colours is decided
/// elsewhere.
#[verifier::external_body]
pub(crate) fn underlined(text: &str) -> (r: String)
    ensures
        styled(r@, text@, "\x1b[4m"@),
{
    console::style(text).underlined().to_string()
}

} // verus!
