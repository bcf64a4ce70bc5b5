//! Detection of series names and episode information in filenames.
pub mod episode;
pub mod format;
pub mod series;
pub mod text;
pub mod tokens;

use vstd::prelude::*;

pub use episode::Episode;
pub use format::Format;
pub use series::Series;

verus! {

/// Why a filename could not be parsed.
#[derive(Debug, PartialEq, Eq, Structural)]
pub enum Error {
    /// The input could not be matched.
    Unmatched,
}

} // verus!
