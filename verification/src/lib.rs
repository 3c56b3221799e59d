//! Codec for Iceberg manifest files: the value model of manifest entries and
//! data files, the v1/v2 record layouts, a writer that assigns statuses and
//! aggregates partition summaries, and a reader for self-describing manifest
//! containers.
pub mod error;
pub mod json;
pub mod manifest;
pub mod schema;
pub mod stats;
pub mod strutil;
pub mod wire;
pub mod writer;
pub mod avro;
pub mod binary;
pub mod container;
pub mod values;
