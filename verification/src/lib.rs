//! Core of an SHV-style RPC message broker: per-client handshake state
//! machine, mount-point namespace with longest-prefix lookup, and the
//! single-owner routing engine that forwards frames between peers.

pub mod broker;
pub mod bytes;
pub mod client;
pub mod crypto;
pub mod frame;
pub mod laws;
pub mod mounts;
pub mod node;
pub mod nonce;
pub mod path;
pub mod value;
pub mod words;
