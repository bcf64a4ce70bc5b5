//! Widgets of the series list and of the selected series.
pub mod info;
pub mod list;
pub mod season_info;
