//! Small helpers shared by the library.
pub mod radix;
pub mod stream;
