//! Analysis of the collected facts.

pub mod guarantees;
pub mod rules;
