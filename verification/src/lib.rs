//! Terminal event decoding and screen state.

pub mod ansi;
pub mod bytes;
pub mod color;
pub mod event;
pub mod layout;
pub mod screen;
