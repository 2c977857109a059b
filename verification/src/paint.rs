//! Colours for terminal output, by the `colored` crate.
//!
//! Whether text is coloured at all is settled by the environment of the
//! process, so nothing is claimed of what the functions here return.

use colored::Colorize;
use vstd::prelude::*;

verus! {

/// Calls `Colorize::red` of `colored` on the text and renders the result.
/// What comes back is the text, wrapped in the escape sequences for red where
/// the environment allows colours. The contract claims nothing of it.
#[verifier::external_body]
pub(crate) fn paint_red(text: &str) -> String {
    text.red().to_string()
}

/// Calls `Colorize::green` of `colored` on the text and renders the result.
/// What comes back is the text, wrapped in the escape sequences for green
/// where the environment allows colours. The contract claims nothing of it.
#[verifier::external_body]
pub(crate) fn paint_green(text: &str) -> String {
    text.green().to_string()
}

} // verus!
