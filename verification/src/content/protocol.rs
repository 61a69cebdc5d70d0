//! The request/response protocol by which peers exchange modules.

use vstd::prelude::*;

verus! {

/// The name of the module exchange protocol.
pub const PROTOCOL_NAME: &'static str = "/pied-piper/module/1.0.0";

/// A request for modules.
#[derive(Debug, Clone, PartialEq, Eq)]
pub enum ModuleRequest {
    /// Module bytes by CID
    GetModule { cid: String },
    /// Module metadata by CID
    GetModuleInfo { cid: String },
    /// Modules whose name contains the text
    SearchByName { name: String },
    /// All modules a peer provides
    ListModules,
}

/// The answer to a module request.
#[derive(Debug, Clone, PartialEq, Eq)]
pub enum ModuleResponse {
    /// Module bytes
    Module { cid: String, bytes: Vec<u8> },
    /// Module metadata
    ModuleInfo {
        cid: String,
        name: Option<String>,
        version: Option<String>,
        size: usize,
        dependencies: Vec<String>,
        author: Option<String>,
        description: Option<String>,
    },
    /// Search results
    SearchResults { modules: Vec<SearchResult> },
    /// The modules provided
    ModuleList { cids: Vec<String> },
    /// No such module
    NotFound { cid: String },
    /// Something went wrong
    Error { message: String },
}

/// A module found by a search.
#[derive(Debug, Clone, PartialEq, Eq)]
pub struct SearchResult {
    pub cid: String,
    pub name: Option<String>,
    pub version: Option<String>,
    pub description: Option<String>,
}

} // verus!
