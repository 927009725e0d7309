//! Helpers shared by the other modules.

pub mod ascii_numbers;
pub mod text;
