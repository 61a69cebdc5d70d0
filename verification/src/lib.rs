//! Pied Piper: a peer-to-peer platform for WebAssembly applications.
//!
//! The crate holds the platform's verified core: conflict-free replicated
//! data types, request routing and validation, manifests, package framing
//! and the configuration model.

pub mod text;
pub mod paths;
pub mod assoc;
pub mod url;
pub mod codec;
pub mod time;
pub mod crdt;
pub mod config;
pub mod manifest;
pub mod bundle;
pub mod package;
pub mod security;
pub mod content;
pub mod network;
pub mod cli;
pub mod gateway;
pub mod wasm;
pub mod storage;
pub mod deploy;
