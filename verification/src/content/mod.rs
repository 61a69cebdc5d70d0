//! Content distribution: the module exchange protocol, providing modules,
//! publishing them and discovering them.

pub mod protocol;
pub mod provider;
pub mod publisher;
pub mod discovery;
