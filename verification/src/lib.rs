//! Verified decoding and validation core of the KAT trace datasource.

pub mod text;
pub mod number;
pub mod sorted;
pub mod paths;
pub mod ftrace_text;
pub mod hitrace;
pub mod dataset;
pub mod trace_streamer;
pub mod relational;
pub mod protobuf_source;
pub mod plan;
pub mod row_sources;
pub mod cells;
