//! Conflict-free replicated data types for distributed state.

pub mod types;
pub mod lww_map;
pub mod or_set;

pub use types::{Timestamp, Token, CrdtOperation};
pub use lww_map::LwwMap;
pub use or_set::OrSet;
pub mod sync;
pub use sync::{CrdtSync, CrdtSyncMessage, CrdtType};
