//! Batch rewriting of the dependency entries of package manifests.
//!
//! A run reads a manifest, asks `manifest::manifest_needs` what it has to
//! find out, finds it out, and hands the answers to
//! `manifest::handle_toml_file`, which returns the text to write back.

pub mod error;
pub mod facts;
pub mod laws;
pub mod manifest;
pub mod resolve;
pub mod rewrite;
pub mod table;
pub mod text;
pub mod update;
pub mod walk;
