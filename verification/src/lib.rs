//! A guided commit-message assistant library.
//!
//! Two components carry the logic: an argument filter that strips
//! message-supplying flags from a raw argument list, and a step-by-step
//! commit-message wizard that validates its answers and renders the final
//! conventional commit message.

use vstd::prelude::*;

pub mod adapters;
pub mod args_filter;
pub mod conventional_changelog;
pub mod text;

verus! {

/// Whether the staged changes captured by the version-control tool are empty,
/// judged from the raw bytes the tool printed for the staged diff.
pub fn staging_is_clean(diff_output: &Vec<u8>) -> (clean: bool)
    ensures
        clean == (diff_output@.len() == 0),
{
    diff_output.len() == 0
}

} // verus!
