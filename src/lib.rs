//! Long-lived JSON-RPC sessions with a child process over its standard
//! streams: request correlation, stream demultiplexing, the session registry,
//! the installation probe and the launcher's environment rules.

pub mod correlator;
pub mod demux;
pub mod json;
pub mod launcher;
pub mod models;
pub mod probe;
pub mod registry;
pub mod rpc;
pub mod text;
pub mod types;
