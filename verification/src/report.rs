//! Rendering a run for the reader.

pub mod text;
