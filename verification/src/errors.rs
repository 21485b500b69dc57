//! The error taxonomy of the loader: resolution failures, policy denials,
//! unrecognized schemes, and the failures a load pipeline can surface.

use vstd::prelude::*;

verus! {

/// Why a resolution failed.
#[derive(Clone, Copy, Debug, PartialEq, Eq, Structural)]
pub enum ResolveError {
    /// The specifier is malformed: it is neither absolute nor resolvable
    /// against the given referrer.
    InvalidSpecifier,
    /// The deployment configuration forbids the import.
    PolicyDenied,
    /// The locator's scheme is none of the known set.
    UnrecognizedScheme,
}

/// Why a load failed.
#[derive(Debug)]
pub enum LoadError {
    /// The locator's scheme is not one the loader may fetch from.
    SchemeNotPermitted,
    /// The fetcher could not retrieve the module's bytes; carries the
    /// failing locator text and the origin's message.
    FetchFailed(String),
    /// The transpiler rejected the fetched source; carries its diagnostic.
    TranspileFailed(String),
}

} // verus!
