//! Analyse line-delimited JSON input: group records by their `type` field and
//! report, for each distinct type encoding, how many records carry it and the
//! total byte size of their source lines.
//!
//! The pipeline runs in three stages: the interpreter validates each line and
//! extracts its type key, the accumulator aggregates per-type counters, and
//! the renderer turns the finished analysis into a table or a debug dump.

pub mod analysis;
pub mod decimal;
pub mod interpret;
pub mod render;
