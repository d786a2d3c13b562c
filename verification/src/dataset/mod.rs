//! Dataset bindings: names, validation and the inspection results.

pub mod names;
pub mod inspection;
pub mod resolved;
pub mod bindings;
pub mod resolver;
pub mod target;
pub mod validated;
