//! Timestamps, tokens and operations shared by the CRDTs.

use vstd::prelude::*;

verus! {

/// Identifier of a CRDT operation: a logical time and the node that made it.
/// Timestamps are ordered first by time, then by node id.
#[derive(Debug, Clone, Copy, PartialEq, Eq, PartialOrd, Ord, Hash, Structural)]
pub struct Timestamp {
    /// Logical time (typically milliseconds since the Unix epoch)
    pub time: u64,
    /// Node identifier that breaks ties between equal times
    pub node_id: u64,
}

/// The strict total order on timestamps: time first, then node id.
pub open spec fn ts_lt(a: Timestamp, b: Timestamp) -> bool {
    a.time < b.time || (a.time == b.time && a.node_id < b.node_id)
}

/// Milliseconds since the Unix epoch as read from the system clock
/// (`std::time::SystemTime::now`); a clock set before the epoch reads 0.
/// Nothing is claimed of the value: it depends on the clock.
#[verifier::external_body]
fn system_time_millis() -> (r: u64) {
    match std::time::SystemTime::now().duration_since(std::time::UNIX_EPOCH) {
        Ok(d) => d.as_millis() as u64,
        Err(_) => 0,
    }
}

impl Timestamp {
    pub fn new(time: u64, node_id: u64) -> (r: Self)
        ensures
            r.time == time,
            r.node_id == node_id,
    {
        Timestamp { time, node_id }
    }

    /// A timestamp for `node_id` taken from the current system time.
    pub fn now(node_id: u64) -> (r: Self)
        ensures
            r.node_id == node_id,
    {
        let time = system_time_millis();
        Timestamp { time, node_id }
    }

    /// `self < other` in the timestamp order.
    pub fn less_than(&self, other: &Timestamp) -> (r: bool)
        ensures
            r == ts_lt(*self, *other),
    {
        self.time < other.time || (self.time == other.time && self.node_id < other.node_id)
    }
}

/// Unique tag of an OR-Set add operation.
#[derive(Debug, Clone, Copy, PartialEq, Eq, Hash, Structural)]
pub struct Token {
    /// Timestamp of the add operation
    pub timestamp: Timestamp,
    /// Sequence number for several adds within the same millisecond
    pub seq: u32,
}

impl Token {
    pub fn new(timestamp: Timestamp, seq: u32) -> (r: Self)
        ensures
            r.timestamp == timestamp,
            r.seq == seq,
    {
        Token { timestamp, seq }
    }
}

/// An operation exchanged between replicas.
#[derive(Debug, Clone)]
pub enum CrdtOperation {
    /// LWW-Map set
    LwwMapSet { key: String, value: Vec<u8>, timestamp: Timestamp },
    /// LWW-Map remove
    LwwMapRemove { key: String, timestamp: Timestamp },
    /// OR-Set add
    OrSetAdd { key: String, value: Vec<u8>, token: Token },
    /// OR-Set remove of observed tokens
    OrSetRemove { key: String, tokens: Vec<Token> },
}

} // verus!
