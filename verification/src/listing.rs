//! What reading a directory gave.

use vstd::prelude::*;

verus! {

/// The outcome of listing a directory.
#[derive(Debug)]
pub enum Listing<T> {
    /// The directory does not exist.
    Missing,
    /// The directory exists and could not be listed.
    Unreadable,
    /// The entries in the order they were read; `None` stands for an entry
    /// that could not be read.
    Entries(Vec<Option<T>>),
}

} // verus!
