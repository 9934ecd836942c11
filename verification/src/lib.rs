//! Configuration ingestion for a Kubernetes manifest templating tool.
//!
//! The library parses a single-document YAML configuration, validates its
//! shape (exactly one document, a mapping at the root, string keys at every
//! level), converts it into a closed generic value tree, and assembles the
//! final render context by merging in a snapshot of the process environment
//! under the reserved `Env` key.

pub mod node;
pub mod value;
pub mod error;
pub mod convert;
pub mod loader;
pub mod config;
