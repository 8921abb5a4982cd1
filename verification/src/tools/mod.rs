//! Maintenance tasks.
pub mod patch;
pub mod util;
