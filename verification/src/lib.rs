//! Conformance-test capture core for a Lightning Network wire protocol node.
//!
//! The library records every inbound wire message in a per-peer, ordered,
//! bounded log (the capture sink), tracks peer connection lifecycle in a
//! registry, and resolves driver requests (a small JSON-RPC style command
//! set) against that state. Transport and socket I/O live outside the
//! library; everything here works on plain values and is verified.

pub mod peer;
pub mod wire;
pub mod sink;
pub mod registry;
pub mod harness;
pub mod hex;
pub mod bridge;
pub mod cli;
