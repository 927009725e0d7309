//! The command line of the image builder, as plain data.

pub mod args;
