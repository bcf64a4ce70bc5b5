//! What the interface's widgets compute before they draw.
pub mod log;
pub mod series;
