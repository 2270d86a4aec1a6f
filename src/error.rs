//! Errors of redaction and of dictionary registration.
use vstd::prelude::*;

verus! {

/// Why a call failed; every error is the caller's to correct and retry.
#[derive(Debug, Clone, Copy, PartialEq, Eq, Structural)]
pub enum Error {
    /// A dictionary entry with an empty word.
    EmptyWord,
    /// The custom matcher was requested without a pattern.
    NoArgs,
    /// A pattern that does not compile.
    InvalidRegex,
}

} // verus!
