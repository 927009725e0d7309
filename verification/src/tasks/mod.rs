//! Tasks of the image builder.

pub mod bake;
