//! Indexes protobuf-style interface definitions: finds the package, the
//! `service` blocks and the `rpc` signatures of a file, and assembles the
//! per-root scan result from the files found under a root directory.
pub mod chars;
pub mod model;
pub mod parser;
pub mod file;
pub mod scan;
pub mod laws;
pub mod store;
