//! A verified pipeline that converts content files written with a
//! YAML-style metadata header and a markdown body into a normalized
//! static-site document: a TOML-style header under a fixed schema,
//! followed by the unchanged body.
//!
//! The stages: `split` separates the header block from the body;
//! `parse` decodes the header into an ordered key-value document;
//! `transform` enforces the recognized field set, reconciles the
//! declared date against externally supplied timestamps, derives the
//! slug and publication path, and regroups the taxonomy fields;
//! `render` serializes the result. `laws` states and proves the
//! properties that hold of the pipeline as a whole.

pub mod bytes;
pub mod keys;
pub mod laws;
pub mod parse;
pub mod pipeline;
pub mod render;
pub mod split;
pub mod timestamps;
pub mod transform;
pub mod value;
