pub mod anime;
pub mod detect;
pub mod image_cache;
pub mod series;
pub mod tui;
pub mod util;
