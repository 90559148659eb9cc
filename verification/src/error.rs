//! The ways an operation of the catalog can fail.

use vstd::prelude::*;

verus! {

/// Why an operation failed.
#[derive(Clone, Copy, Debug, PartialEq, Eq, Structural)]
pub enum CatalogError {
    /// No override directory was given and the home directory is unknown.
    Environment,
    /// A directory or a file could not be read.
    Io,
    /// The target of the operation does not exist.
    NotFound,
    /// The configuration document cannot be parsed, has not the expected
    /// shape, or cannot be written out.
    Config,
}

/// Whether `r` is the failure `e`.
pub open spec fn fails_with<T>(r: Result<T, CatalogError>, e: CatalogError) -> bool {
    r matches Err(x) && x == e
}

/// An operation on a file goes on only where the file exists.
pub fn must_exist(exists: bool) -> (r: Result<(), CatalogError>)
    ensures
        exists ==> r is Ok,
        !exists ==> fails_with(r, CatalogError::NotFound),
{
    if exists {
        Ok(())
    } else {
        Err(CatalogError::NotFound)
    }
}

} // verus!
