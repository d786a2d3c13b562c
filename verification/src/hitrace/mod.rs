//! Hitrace container decoding and ftrace evidence validation.

pub mod container;
pub mod clocks;
pub mod validate;
pub mod report;
pub mod decoder;
pub mod spool;
pub mod imported;
pub mod continuity;
pub mod long_term;
