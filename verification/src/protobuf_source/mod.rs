//! Profiler payload sources.

pub mod native_hook;
pub mod spool;
pub mod spec;
pub mod capture;
pub mod occurrence;
pub mod claim;
