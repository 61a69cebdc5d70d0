//! Settings of the gateway server.

use vstd::prelude::*;
use crate::gateway::tls::TlsConfig;
use crate::text::{lit, concat3, decimal, decimal_chars, text_bytes};
use crate::gateway::api::{HttpReply, json_reply, json_reply_is, json_text_object, kv};
use crate::gateway::router::pair_views;

verus! {

/// Settings of the HTTP gateway.
#[derive(Debug, Clone)]
pub struct GatewayConfig {
    pub port: u16,
    pub https_port: Option<u16>,
    pub index_file: String,
    pub tls_config: Option<TlsConfig>,
    pub request_timeout_secs: u64,
}

impl Default for GatewayConfig {
    /// Port 3000, no HTTPS, `index.html`, 30 s timeout.
    fn default() -> (r: Self)
        ensures
            r.port == 3000,
            r.https_port is None,
            r.index_file@ == "index.html"@,
            r.tls_config is None,
            r.request_timeout_secs == 30,
    {
        GatewayConfig {
            port: 3000,
            https_port: None,
            index_file: lit("index.html"),
            tls_config: None,
            request_timeout_secs: 30,
        }
    }
}

/// The JSON body `/ready` answers for a peer count: ready, with the
/// count, once there is a peer; else not ready, with a count of 0.
pub open spec fn readiness_body(peer_count: nat) -> Seq<char> {
    if peer_count > 0 {
        "{\"message\":\"Gateway is ready to accept traffic\",\"peer_count\":"@ + decimal(peer_count)
            + ",\"ready\":true}"@
    } else {
        "{\"message\":\"Gateway is not ready - no peer connections\",\"peer_count\":0,\"ready\":false}"@
    }
}

/// What `/ready` answers: 200 once the node has a peer, else 503, with the
/// body of `readiness_body`.
pub fn readiness_reply(peer_count: usize) -> (r: HttpReply)
    ensures
        json_reply_is(r, if peer_count > 0 { 200 } else { 503 }, readiness_body(peer_count as nat)),
{
    if peer_count > 0 {
        let digits = decimal_chars(peer_count as u64);
        let body = concat3(
            "{\"message\":\"Gateway is ready to accept traffic\",\"peer_count\":",
            digits.as_slice(),
            ",\"ready\":true}",
        );
        HttpReply {
            status: 200,
            content_type: lit("application/json"),
            headers: Vec::new(),
            body: text_bytes(body.as_str()),
        }
    } else {
        let body = lit(
            "{\"message\":\"Gateway is not ready - no peer connections\",\"peer_count\":0,\"ready\":false}",
        );
        HttpReply {
            status: 503,
            content_type: lit("application/json"),
            headers: Vec::new(),
            body: text_bytes(body.as_str()),
        }
    }
}

/// The members of the `/info` answer, in the order JSON objects keep
/// their keys (sorted): the gateway's name, the node's peer id, that it is
/// online, and the version.
pub open spec fn info_members(peer_id: Seq<char>, version: Seq<char>) -> Seq<(Seq<char>, Seq<char>)> {
    seq![
        ("gateway"@, "Pied Piper HTTP Gateway"@),
        ("peer_id"@, peer_id),
        ("status"@, "online"@),
        ("version"@, version),
    ]
}

/// What `/info` answers: 200 with the JSON object of `info_members`.
pub fn info_reply(peer_id: &str, version: &str) -> (r: HttpReply)
    ensures
        json_reply_is(r, 200, json_text_object(info_members(peer_id@, version@))),
{
    let mut kvs: Vec<(String, String)> = Vec::new();
    kvs.push(kv("gateway", "Pied Piper HTTP Gateway"));
    kvs.push(kv("peer_id", peer_id));
    kvs.push(kv("status", "online"));
    kvs.push(kv("version", version));
    proof {
        assert(pair_views(kvs@) =~= info_members(peer_id@, version@));
    }
    json_reply(200, &kvs)
}

} // verus!
