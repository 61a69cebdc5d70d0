//! Running WebAssembly modules: resource limits, module identity and
//! versions.

pub mod sandbox;
pub mod loader;
pub mod host;
pub mod runtime;
