//! Errors of the library.

use vstd::prelude::*;

verus! {

/// What can go wrong in the library's own logic.
#[derive(Debug)]
pub enum Error {
    /// No zoom level in the searched range has a window that holds all the
    /// given points.
    NoFittingZoom,
    /// Any other failure, with a message for the log.
    Other(String),
}

} // verus!
