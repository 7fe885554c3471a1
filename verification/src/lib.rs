//! Diagnostic rule engine for NVIDIA GPU and driver state: facts about the
//! machine are held against a catalog of rules, and the rules that fire
//! become findings in a fixed order of severity.

pub mod analyzer;
pub mod cli;
pub mod collector;
pub mod report;
pub mod scan;
pub mod strings;
pub mod types;
