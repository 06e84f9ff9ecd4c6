//! The error that a command reports.

use vstd::prelude::*;

verus! {

/// Why a command failed.
#[derive(Debug, Clone, PartialEq, Eq)]
pub struct CliError {
    /// What is told first.
    pub message: String,
    /// What lies behind it, if there is more to tell.
    pub cause: Option<String>,
}

/// The contents of a [`CliError`].
#[verifier::ext_equal]
pub struct ErrorView {
    /// What is told first.
    pub message: Seq<char>,
    /// What lies behind it.
    pub cause: Option<Seq<char>>,
}

/// The characters of an optional string.
pub open spec fn shown(value: Option<String>) -> Option<Seq<char>> {
    match value {
        Some(text) => Some(text@),
        None => None,
    }
}

impl View for CliError {
    type V = ErrorView;

    open spec fn view(&self) -> ErrorView {
        ErrorView { message: self.message@, cause: shown(self.cause) }
    }
}

/// An error with nothing behind it.
pub open spec fn plain(message: Seq<char>) -> ErrorView {
    ErrorView { message, cause: None }
}

/// An error with nothing behind it.
pub fn fail(message: String) -> (res: CliError)
    ensures
        res@ == plain(message@),
{
    CliError { message, cause: None }
}

} // verus!
