//! Adapter plumbing: the error type shared by prompt adapters, the
//! capability interface an interactive adapter implements, and the lookup of
//! an adapter by name.

use vstd::prelude::*;

verus! {

/// `std::io::Error`, carried through unchanged for prompt-backend failures;
/// the library never inspects it.
#[verifier::external_type_specification]
#[verifier::external_body]
pub struct ExIoError(std::io::Error);

/// An error from running a prompt adapter.
#[derive(Debug)]
pub enum Error {
    /// The user explicitly aborted a required selection.
    UserError(&'static str),
    /// The assistant itself could not proceed.
    CommitizenError(&'static str),
    /// The prompt backend failed at the I/O level.
    Io(std::io::Error),
}

/// An interactive commit-message adapter: asks its questions and produces
/// the finished message. Implementations live with the prompt backend.
pub trait Adapter {
    fn prompt(&self) -> Result<String, Error>;
}

/// The adapters this library knows by name.
#[derive(Clone, Copy, PartialEq, Eq, Structural, Debug)]
pub enum AdapterId {
    ConventionalChangelog,
}

/// Look an adapter up by its configured name. Every name currently resolves
/// to the conventional-changelog adapter.
#[allow(unused_variables)]
pub fn get_by_name(name: &String) -> (r: Option<AdapterId>)
    ensures
        r == Some(AdapterId::ConventionalChangelog),
{
    Some(AdapterId::ConventionalChangelog)
}

} // verus!
