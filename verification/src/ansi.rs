//! Escape-sequence encoders: what the library writes to a terminal.

pub mod cursor;
pub mod kitty;
pub mod mode;
pub mod osc;
pub mod query;
pub mod status;
