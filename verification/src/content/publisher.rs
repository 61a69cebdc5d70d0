//! Publishing modules: the records stored in the DHT for them.

use vstd::prelude::*;
use crate::wasm::loader::cid_texts;
use vstd::string::StringExecFns;
use crate::text::{lit, copy_string, copy_bytes, texts_of, opt_text, utf8, copy_opt, text_bytes};
use crate::wasm::loader::{ModuleCid, ModuleInfo};

verus! {

/// What the DHT holds about a module.
#[derive(Debug, Clone)]
pub struct ModuleMetadata {
    pub cid: String,
    pub name: Option<String>,
    pub version: Option<String>,
    pub size: usize,
    pub dependencies: Vec<String>,
    pub author: Option<String>,
    pub description: Option<String>,
    /// Peer IDs of the providers
    pub providers: Vec<String>,
    /// Unix time of publication, in seconds
    pub published_at: u64,
}

/// A claim on a name; the oldest claim wins.
#[derive(Debug, Clone)]
pub struct NameRegistration {
    pub name: String,
    pub cid: String,
    pub version: Option<String>,
    /// Peer ID of the registrant
    pub registered_by: String,
    /// Unix time of registration, in seconds
    pub registered_at: u64,
}

/// A record to store in the DHT: key, value and publisher; records of
/// modules do not expire.
#[derive(Debug, Clone)]
pub struct DhtRecord {
    pub key: Vec<u8>,
    pub value: Vec<u8>,
    pub publisher: Option<String>,
}

/// Makes the records by which this node publishes modules.
pub struct ModulePublisher {
    local_peer_id: String,
}

/// What a node announces on the module topic when it publishes a module.
#[derive(Debug, Clone)]
pub struct Announcement {
    /// Always `module_published`.
    pub msg_type: String,
    pub cid: String,
    pub name: Option<String>,
    pub version: Option<String>,
    /// Peer ID of the publishing node
    pub provider: String,
    /// Unix time of the announcement, in seconds
    pub timestamp: u64,
}

impl ModulePublisher {
    /// The peer ID of this node.
    pub closed spec fn spec_peer(&self) -> Seq<char> {
        self.local_peer_id@
    }

    /// A publisher for the node with the given peer ID.
    pub fn new(local_peer_id: String) -> (r: Self)
        ensures
            r.spec_peer() == local_peer_id@,
    {
        ModulePublisher { local_peer_id }
    }

    fn record(&self, key: String, value: Vec<u8>) -> (r: DhtRecord)
        ensures
            r.key@ == utf8(key@),
            r.value == value,
            r.publisher matches Some(p) && p@ == self.spec_peer(),
    {
        DhtRecord {
            key: text_bytes(&key),
            value,
            publisher: Some(copy_string(self.local_peer_id.as_str())),
        }
    }

    /// The metadata published for a module of `size` bytes at
    /// `published_at`, with this node as its only provider.
    pub fn metadata_for(&self, module_info: &ModuleInfo, size: usize, published_at: u64) -> (r: ModuleMetadata)
        ensures
            r.cid@ == module_info.cid.0@,
            opt_text(r.name) == opt_text(module_info.name),
            opt_text(r.version) == opt_text(module_info.version),
            r.size == size,
            texts_of(r.dependencies@) == cid_texts(module_info.dependencies@),
            opt_text(r.author) == opt_text(module_info.author),
            opt_text(r.description) == opt_text(module_info.description),
            texts_of(r.providers@) == seq![self.spec_peer()],
            r.published_at == published_at,
    {
        let mut deps: Vec<String> = Vec::new();
        let mut i: usize = 0;
        while i < module_info.dependencies.len()
            invariant
                0 <= i <= module_info.dependencies@.len(),
                texts_of(deps@) == cid_texts(module_info.dependencies@.take(i as int)),
            decreases module_info.dependencies@.len() - i,
        {
            let d = copy_string(module_info.dependencies[i].0.as_str());
            proof {
                assert(texts_of(deps@.push(d)) =~= texts_of(deps@).push(d@));
                assert(cid_texts(module_info.dependencies@.take(i + 1)) =~= cid_texts(
                    module_info.dependencies@.take(i as int),
                ).push(module_info.dependencies@[i as int].0@));
            }
            deps.push(d);
            i = i + 1;
        }
        proof {
            assert(module_info.dependencies@.take(module_info.dependencies@.len() as int)
                =~= module_info.dependencies@);
        }
        let mut providers: Vec<String> = Vec::new();
        providers.push(copy_string(self.local_peer_id.as_str()));
        assert(texts_of(providers@) =~= seq![self.spec_peer()]);
        ModuleMetadata {
            cid: copy_string(module_info.cid.0.as_str()),
            name: copy_opt(&module_info.name),
            version: copy_opt(&module_info.version),
            size,
            dependencies: deps,
            author: copy_opt(&module_info.author),
            description: copy_opt(&module_info.description),
            providers,
            published_at,
        }
    }

    /// The record of a module's serialized metadata, under `module:<cid>`.
    pub fn metadata_record(&self, cid: &ModuleCid, value: Vec<u8>) -> (r: DhtRecord)
        ensures
            r.key@ == utf8("module:"@ + cid.0@),
            r.value == value,
            r.publisher matches Some(p) && p@ == self.spec_peer(),
    {
        let mut key = lit("module:");
        key.append(cid.0.as_str());
        self.record(key, value)
    }

    /// The record mapping `name:<name>:<version>` to a module's CID.
    pub fn create_name_record(&self, name: &str, version: &str, cid: &ModuleCid) -> (r: DhtRecord)
        ensures
            r.key@ == utf8("name:"@ + name@ + ":"@ + version@),
            r.value@ == utf8(cid.0@),
            r.publisher matches Some(p) && p@ == self.spec_peer(),
    {
        let mut key = lit("name:");
        key.append(name);
        key.append(":");
        key.append(version);
        self.record(key, text_bytes(&cid.0))
    }

    /// The record mapping `name:<name>` to the CID of its latest version.
    pub fn create_latest_name_record(&self, name: &str, cid: &ModuleCid) -> (r: DhtRecord)
        ensures
            r.key@ == utf8("name:"@ + name@),
            r.value@ == utf8(cid.0@),
            r.publisher matches Some(p) && p@ == self.spec_peer(),
    {
        let mut key = lit("name:");
        key.append(name);
        self.record(key, text_bytes(&cid.0))
    }

    /// This node's claim on `name` for `cid`, made at `registered_at`.
    pub fn registration_for(&self, name: &str, cid: &ModuleCid, version: Option<String>, registered_at: u64) -> (r: NameRegistration)
        ensures
            r.name@ == name@,
            r.cid@ == cid.0@,
            r.version == version,
            r.registered_by@ == self.spec_peer(),
            r.registered_at == registered_at,
    {
        NameRegistration {
            name: copy_string(name),
            cid: copy_string(cid.0.as_str()),
            version,
            registered_by: copy_string(self.local_peer_id.as_str()),
            registered_at,
        }
    }

    /// The record of a serialized name claim, under `persistent-name:<name>`.
    pub fn persistent_name_record(&self, name: &str, value: Vec<u8>) -> (r: DhtRecord)
        ensures
            r.key@ == utf8("persistent-name:"@ + name@),
            r.value == value,
            r.publisher matches Some(p) && p@ == self.spec_peer(),
    {
        let mut key = lit("persistent-name:");
        key.append(name);
        self.record(key, value)
    }

    /// The announcement of a module published by this node at `timestamp`.
    pub fn announcement_for(&self, module_info: &ModuleInfo, timestamp: u64) -> (r: Announcement)
        ensures
            r.msg_type@ == "module_published"@,
            r.cid@ == module_info.cid.0@,
            opt_text(r.name) == opt_text(module_info.name),
            opt_text(r.version) == opt_text(module_info.version),
            r.provider@ == self.spec_peer(),
            r.timestamp == timestamp,
    {
        Announcement {
            msg_type: lit("module_published"),
            cid: copy_string(module_info.cid.0.as_str()),
            name: copy_opt(&module_info.name),
            version: copy_opt(&module_info.version),
            provider: copy_string(self.local_peer_id.as_str()),
            timestamp,
        }
    }

    /// Whether `new` replaces `existing`: only an older claim does.
    pub fn should_replace_registration(existing: &NameRegistration, new: &NameRegistration) -> (r: bool)
        ensures
            r == (new.registered_at < existing.registered_at),
    {
        new.registered_at < existing.registered_at
    }
}

/// Of two claims on a name, the older stands whichever arrives first: a
/// claim replaces another only if the other does not replace it, and a
/// claim never replaces itself.
pub proof fn lemma_older_claim_wins(a: u64, b: u64)
    ensures
        (a < b) ==> !(b < a),
        !(a < a),
{
}

} // verus!
