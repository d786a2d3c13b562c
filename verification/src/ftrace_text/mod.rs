//! Text ftrace (`trace` file) decoding.

pub mod event;
pub mod payload;
pub mod parsers;
pub mod summary;
pub mod line;
pub mod record;
pub mod decode;
pub mod imported;
pub mod source_capture;
pub mod relations;
