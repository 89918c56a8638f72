//! The terminal's escape sequences for emphasis.

use vstd::prelude::*;

verus! {

/// The sequence that turns bold text on.
pub open spec fn bold_code() -> Seq<char> {
    seq!['\u{1b}', '[', '1', 'm']
}

/// The sequence that turns italic text on.
pub open spec fn italic_code() -> Seq<char> {
    seq!['\u{1b}', '[', '3', 'm']
}

/// The sequence that turns all emphasis off.
pub open spec fn reset_code() -> Seq<char> {
    seq!['\u{1b}', '[', 'm']
}

/// What `termion::style::Bold` displays as: the escape character, `[` and
/// `1m`.
#[verifier::external_body]
pub(crate) fn bold() -> (r: String)
    ensures
        r@ == bold_code(),
{
    format!("{}", termion::style::Bold)
}

/// What `termion::style::Italic` displays as: the escape character, `[` and
/// `3m`.
#[verifier::external_body]
pub(crate) fn italic() -> (r: String)
    ensures
        r@ == italic_code(),
{
    format!("{}", termion::style::Italic)
}

/// What `termion::style::Reset` displays as: the escape character, `[` and
/// `m`.
#[verifier::external_body]
pub(crate) fn reset() -> (r: String)
    ensures
        r@ == reset_code(),
{
    format!("{}", termion::style::Reset)
}

} // verus!
