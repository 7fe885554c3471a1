//! Reading the facts out of what the system's tools print.

pub mod gpu;
pub mod system;
