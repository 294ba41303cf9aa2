//! Why picking a file can fail.

use vstd::prelude::*;

verus! {

/// The ways in which picking a file fails. None of them is retried.
#[derive(Clone, Copy, Debug, PartialEq, Eq, Structural)]
pub enum PickError {
    /// A directory could not be read.
    Io,
    /// The user's choice could not be obtained.
    Prompt,
    /// The listing was empty, so there was nothing to ask.
    EmptySelection,
    /// The choice that came back names no entry of the listing.
    InvalidSelection,
}

} // verus!
