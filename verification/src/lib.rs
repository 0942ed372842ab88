//! Source-level inspection of Rust crates: a heuristic public-API scanner,
//! crate-spec and version selection, README discovery, file listing and a
//! markdown renderer over a model of rustdoc's JSON output.

pub mod text;
pub mod paths;
pub mod api_scan;
pub mod args;
pub mod registry;
pub mod files;
pub mod rustdoc_model;
pub mod rustdoc_render;
pub mod rustdoc_build;
pub mod rustdoc_json;
