//! WebSocket sessions with a module: the messages exchanged, as the JSON
//! text sent on the socket, and what the gateway does with each frame.

use vstd::prelude::*;
use vstd::string::StringExecFns;
use crate::codec::{spec_json_quote, json_quote, spec_base64_encode, base64_encode};
use crate::gateway::api::{json_object, json_text_object, kv};
use crate::gateway::router::pair_views;
use crate::text::{lit, str_eq, decimal, decimal_chars, string_from_chars, opt_text, copy_opt};

verus! {

/// A message on a module's WebSocket: its type, an optional request ID for
/// correlation, and its payload and optional metadata as JSON text.
#[derive(Debug, Clone)]
pub struct WsMessage {
    /// Message type (e.g. "request", "response", "event", "ping", "pong")
    pub msg_type: String,
    /// Request ID for correlation
    pub id: Option<String>,
    /// Payload, as JSON text
    pub data: String,
    /// Optional metadata, as JSON text
    pub metadata: Option<String>,
}

/// The JSON text of a message: `type`, `id` (null when absent), `data`,
/// and `metadata` only when present.
pub open spec fn message_json(t: Seq<char>, id: Option<Seq<char>>, data: Seq<char>, metadata: Option<Seq<char>>) -> Seq<char> {
    "{\"type\":"@ + spec_json_quote(t) + ",\"id\":"@ + (match id {
        Some(i) => spec_json_quote(i),
        None => "null"@,
    }) + ",\"data\":"@ + data + (match metadata {
        Some(m) => ",\"metadata\":"@ + m,
        None => Seq::empty(),
    }) + "}"@
}

/// The JSON text a message is sent as.
pub open spec fn ws_json(m: WsMessage) -> Seq<char> {
    message_json(m.msg_type@, opt_text(m.id), m.data@, opt_text(m.metadata))
}

impl WsMessage {
    /// The JSON text the message is sent as (see `message_json`).
    pub fn to_json(&self) -> (r: String)
        ensures
            r@ == ws_json(*self),
    {
        let mut out = lit("{\"type\":");
        out.append(json_quote(self.msg_type.as_str()).as_str());
        out.append(",\"id\":");
        match &self.id {
            Some(i) => out.append(json_quote(i.as_str()).as_str()),
            None => out.append("null"),
        }
        out.append(",\"data\":");
        out.append(self.data.as_str());
        match &self.metadata {
            Some(m) => {
                out.append(",\"metadata\":");
                out.append(m.as_str());
            },
            None => {},
        }
        out.append("}");
        out
    }
}

fn event(msg_type: &str, id: Option<String>, data: String) -> (r: WsMessage)
    ensures
        r.msg_type@ == msg_type@,
        r.id == id,
        r.data == data,
        r.metadata is None,
{
    WsMessage { msg_type: lit(msg_type), id, data, metadata: None }
}

fn object2(k1: &str, v1: &str, k2: &str, v2: &str) -> (r: String)
    ensures
        r@ == json_text_object(seq![(k1@, v1@), (k2@, v2@)]),
{
    let mut kvs: Vec<(String, String)> = Vec::new();
    kvs.push(kv(k1, v1));
    kvs.push(kv(k2, v2));
    proof {
        assert(pair_views(kvs@) =~= seq![(k1@, v1@), (k2@, v2@)]);
    }
    json_object(&kvs)
}

/// The message greeting a new connection.
pub fn welcome(cid: &str) -> (r: WsMessage)
    ensures
        ws_json(r) == message_json(
            "connected"@,
            None,
            json_text_object(seq![("cid"@, cid@), ("message"@, "WebSocket connected"@)]),
            None,
        ),
{
    event("connected", None, object2("cid", cid, "message", "WebSocket connected"))
}

/// The JSON text of an error message with the given data and no ID.
pub open spec fn error_event(data: Seq<char>) -> Seq<char> {
    message_json("error"@, None, data, None)
}

/// The message sent when the module is not found.
pub fn module_not_found(cid: &str) -> (r: WsMessage)
    ensures
        ws_json(r) == error_event(json_text_object(seq![("cid"@, cid@), ("error"@, "Module not found"@)])),
{
    event("error", None, object2("cid", cid, "error", "Module not found"))
}

/// The message sent when an application name is unknown.
pub fn app_not_found(name: &str) -> (r: WsMessage)
    ensures
        ws_json(r) == error_event(
            json_text_object(seq![("error"@, "Application not found"@), ("name"@, name@)]),
        ),
{
    event("error", None, object2("error", "Application not found", "name", name))
}

/// The message sent when resolving an application name failed.
pub fn name_resolution_failed(message: &str) -> (r: WsMessage)
    ensures
        ws_json(r) == error_event(
            json_text_object(seq![("error"@, "Name resolution failed"@), ("message"@, message@)]),
        ),
{
    event("error", None, object2("error", "Name resolution failed", "message", message))
}

/// The message sent when processing a text frame failed.
pub fn processing_failed(message: &str) -> (r: WsMessage)
    ensures
        ws_json(r) == error_event(
            json_text_object(seq![("error"@, "Processing failed"@), ("message"@, message@)]),
        ),
{
    event("error", None, object2("error", "Processing failed", "message", message))
}

/// The message a binary frame is processed as: its bytes in base64 and
/// their count.
pub open spec fn binary_data(bytes: Seq<u8>) -> Seq<char> {
    "{\"data\":"@ + spec_json_quote(spec_base64_encode(bytes)) + ",\"length\":"@ + decimal(
        bytes.len(),
    ) + "}"@
}

/// The message a binary frame is processed as.
pub fn binary_message(bytes: &[u8]) -> (r: WsMessage)
    ensures
        ws_json(r) == message_json("binary"@, None, binary_data(bytes@), None),
{
    let mut d = lit("{\"data\":");
    let b = base64_encode(bytes);
    d.append(json_quote(b.as_str()).as_str());
    d.append(",\"length\":");
    let n = string_from_chars(decimal_chars(bytes.len() as u64).as_slice());
    d.append(n.as_str());
    d.append("}");
    event("binary", None, d)
}

/// The answer to a message the gateway handles itself: `ping` is answered
/// with a `pong` carrying the time, `echo` with the message itself as an
/// `echo`; other types go to the module.
pub open spec fn builtin_answer(m: WsMessage, timestamp: Seq<char>) -> Option<Seq<char>> {
    if m.msg_type@ == "ping"@ {
        Some(
            message_json(
                "pong"@,
                opt_text(m.id),
                json_text_object(seq![("timestamp"@, timestamp)]),
                None,
            ),
        )
    } else if m.msg_type@ == "echo"@ {
        Some(message_json("echo"@, opt_text(m.id), m.data@, opt_text(m.metadata)))
    } else {
        None
    }
}

/// The answer to a `ping` or `echo` message (see `builtin_answer`); `None`
/// for a message the module handles. `timestamp` is the current time.
pub fn builtin_reply(m: &WsMessage, timestamp: &str) -> (r: Option<String>)
    ensures
        opt_text(r) == builtin_answer(*m, timestamp@),
{
    if str_eq(m.msg_type.as_str(), "ping") {
        let mut kvs: Vec<(String, String)> = Vec::new();
        kvs.push(kv("timestamp", timestamp));
        proof {
            assert(pair_views(kvs@) =~= seq![("timestamp"@, timestamp@)]);
        }
        let pong = event("pong", copy_opt(&m.id), json_object(&kvs));
        Some(pong.to_json())
    } else if str_eq(m.msg_type.as_str(), "echo") {
        let echo = WsMessage {
            msg_type: lit("echo"),
            id: copy_opt(&m.id),
            data: lit(m.data.as_str()),
            metadata: copy_opt(&m.metadata),
        };
        Some(echo.to_json())
    } else {
        None
    }
}

/// The reply to a message handled by a component, given its output and
/// the message parsed from it: the parsed message, or else the output
/// wrapped as `{"output": ...}` in a `response` to the request's ID.
pub fn component_ws_reply(request_id: &Option<String>, output: &str, parsed: Option<WsMessage>) -> (r: String)
    ensures
        r@ == (match parsed {
            Some(m) => ws_json(m),
            None => message_json(
                "response"@,
                opt_text(*request_id),
                json_text_object(seq![("output"@, output@)]),
                None,
            ),
        }),
{
    match parsed {
        Some(m) => m.to_json(),
        None => {
            let mut kvs: Vec<(String, String)> = Vec::new();
            kvs.push(kv("output", output));
            proof {
                assert(pair_views(kvs@) =~= seq![("output"@, output@)]);
            }
            event("response", copy_opt(request_id), json_object(&kvs)).to_json()
        },
    }
}

/// The reply when a core module exports no WebSocket handler.
pub fn no_ws_handler(request_id: &Option<String>) -> (r: String)
    ensures
        r@ == message_json(
            "error"@,
            opt_text(*request_id),
            json_text_object(
                seq![
                    ("error"@, "No WebSocket handler"@),
                    ("message"@, "Module must export 'handle_ws_message' function"@),
                ],
            ),
            None,
        ),
{
    event(
        "error",
        copy_opt(request_id),
        object2(
            "error",
            "No WebSocket handler",
            "message",
            "Module must export 'handle_ws_message' function",
        ),
    ).to_json()
}

/// A frame received on the socket.
#[derive(Debug, Clone)]
pub enum WsFrame {
    Text(String),
    Binary(Vec<u8>),
    Ping(Vec<u8>),
    Pong,
    Close,
    /// Receiving failed.
    Failed,
}

/// What the session does with a frame.
#[derive(Debug, Clone)]
pub enum WsStep {
    /// Process this message text; on failure answer with `processing_failed`.
    Process(String),
    /// Process this message (made of a binary frame); on failure answer nothing.
    ProcessQuietly(String),
    /// Answer with a pong carrying these bytes.
    Pong(Vec<u8>),
    /// Go on with the next frame.
    Skip,
    /// End the session.
    Stop,
}

/// What the session does with each frame: text is processed, binary is
/// wrapped (see `binary_data`) and processed without error replies, a
/// ping is answered with its bytes, a pong is skipped, and a close or a
/// failure ends the session.
pub fn session_step(frame: WsFrame) -> (r: WsStep)
    ensures
        match frame {
            WsFrame::Text(t) => r == WsStep::Process(t),
            WsFrame::Binary(b) => r matches WsStep::ProcessQuietly(m) && m@ == message_json(
                "binary"@,
                None,
                binary_data(b@),
                None,
            ),
            WsFrame::Ping(p) => r == WsStep::Pong(p),
            WsFrame::Pong => r is Skip,
            WsFrame::Close => r is Stop,
            WsFrame::Failed => r is Stop,
        },
{
    match frame {
        WsFrame::Text(t) => WsStep::Process(t),
        WsFrame::Binary(b) => WsStep::ProcessQuietly(binary_message(b.as_slice()).to_json()),
        WsFrame::Ping(p) => WsStep::Pong(p),
        WsFrame::Pong => WsStep::Skip,
        WsFrame::Close => WsStep::Stop,
        WsFrame::Failed => WsStep::Stop,
    }
}

/// The gateway answers `ping` itself with a `pong` under the same id
/// carrying the time, and `echo` with an `echo` of the same id, data and
/// metadata; every other message type goes to the module.
pub proof fn lemma_builtin_messages(m: WsMessage, timestamp: Seq<char>)
    ensures
        m.msg_type@ == "ping"@ ==> builtin_answer(m, timestamp) == Some(
            message_json("pong"@, opt_text(m.id), json_text_object(seq![("timestamp"@, timestamp)]), None),
        ),
        m.msg_type@ == "echo"@ ==> builtin_answer(m, timestamp) == Some(
            message_json("echo"@, opt_text(m.id), m.data@, opt_text(m.metadata)),
        ),
        m.msg_type@ != "ping"@ && m.msg_type@ != "echo"@ ==> builtin_answer(m, timestamp) is None,
{
    reveal_strlit("ping");
    reveal_strlit("echo");
    assert("ping"@[1] != "echo"@[1]);
}

} // verus!
