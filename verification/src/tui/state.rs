//! What the interface knows of the scanned series.
pub mod series;

use vstd::prelude::*;

verus! {

/// The directory being scanned and the series found in it.
#[derive(Debug)]
pub struct AppState {
    pub series_scan_dir: String,
    pub series: series::List,
}

} // verus!
