//! The request and response exchanged with a WebAssembly handler.

use vstd::prelude::*;
use vstd::string::StringExecFns;
use crate::assoc::StringMap;
use crate::codec::{
    spec_base64_encode, spec_base64_decode, base64_encode, base64_decode, spec_json_quote,
    json_quote,
};
use crate::text::{lit, copy_bytes, decimal, decimal_chars, concat3, utf8};

verus! {

/// An HTTP request handed to a module.
#[derive(Debug, Clone)]
pub struct WasmRequest {
    /// HTTP method (GET, POST, PUT, DELETE, etc.)
    pub method: String,
    /// Request path (e.g., "/api/users/123")
    pub path: String,
    /// Query parameters
    pub query: StringMap,
    /// HTTP headers
    pub headers: StringMap,
    /// Request body as text (base64 for binary data)
    pub body: String,
    /// Content type
    pub content_type: Option<String>,
    /// Whether the body is base64-encoded binary data
    pub body_is_base64: bool,
}

/// An HTTP response returned by a module.
#[derive(Debug, Clone)]
pub struct WasmResponse {
    /// HTTP status code
    pub status: u16,
    /// Response headers
    pub headers: StringMap,
    /// Response body as text (base64 for binary data)
    pub body: String,
    /// Content type
    pub content_type: Option<String>,
    /// Whether the body is base64-encoded binary data
    pub body_is_base64: bool,
}

/// The bytes a body stands for: its base64 decoding when it is marked as
/// such, else its UTF-8 bytes; `None` for malformed base64.
pub open spec fn body_bytes_of(body: Seq<char>, body_bytes: Seq<u8>, is_base64: bool) -> Option<Seq<u8>> {
    if is_base64 {
        spec_base64_decode(body)
    } else {
        Some(body_bytes)
    }
}

/// The JSON body of an error response: `{"error":true,"message":...,"status":...}`.
pub open spec fn error_body(status: u16, message: Seq<char>) -> Seq<char> {
    "{\"error\":true,\"message\":"@ + spec_json_quote(message) + ",\"status\":"@ + decimal(
        status as nat,
    ) + "}"@
}

fn decode(body: &String, is_base64: bool) -> (r: Result<Vec<u8>, base64::DecodeError>)
    ensures
        r is Ok <==> body_bytes_of(body@, vstd::utf8::encode_utf8(body@), is_base64) is Some,
        r is Ok ==> body_bytes_of(body@, vstd::utf8::encode_utf8(body@), is_base64) == Some(r->Ok_0@),
{
    if is_base64 {
        base64_decode(body.as_str())
    } else {
        Ok(copy_bytes(body.as_str().as_bytes()))
    }
}

impl WasmRequest {
    /// A request with no query, no headers and no content type.
    pub fn new(method: String, path: String, body: String) -> (r: Self)
        ensures
            r.method == method,
            r.path == path,
            r.body == body,
            r.query@ == Map::<Seq<char>, Seq<char>>::empty(),
            r.headers@ == Map::<Seq<char>, Seq<char>>::empty(),
            r.content_type is None,
            !r.body_is_base64,
    {
        WasmRequest {
            method,
            path,
            query: StringMap::new(),
            headers: StringMap::new(),
            body,
            content_type: None,
            body_is_base64: false,
        }
    }

    /// A request whose body is `binary_body` in base64; its body decodes
    /// back to `binary_body`.
    pub fn new_binary(method: String, path: String, binary_body: Vec<u8>) -> (r: Self)
        ensures
            r.method == method,
            r.path == path,
            r.body@ == spec_base64_encode(binary_body@),
            r.query@ == Map::<Seq<char>, Seq<char>>::empty(),
            r.headers@ == Map::<Seq<char>, Seq<char>>::empty(),
            r.content_type matches Some(c) && c@ == "application/octet-stream"@,
            r.body_is_base64,
            body_bytes_of(r.body@, vstd::utf8::encode_utf8(r.body@), r.body_is_base64) == Some(
                binary_body@,
            ),
    {
        let body = base64_encode(binary_body.as_slice());
        WasmRequest {
            method,
            path,
            query: StringMap::new(),
            headers: StringMap::new(),
            body,
            content_type: Some(lit("application/octet-stream")),
            body_is_base64: true,
        }
    }

    /// The request with `value` stored under the header `key`.
    pub fn with_header(self, key: String, value: String) -> (r: Self)
        ensures
            r.headers@ == self.headers@.insert(key@, value@),
            r.query@ == self.query@,
            r.method == self.method,
            r.path == self.path,
            r.body == self.body,
            r.content_type == self.content_type,
            r.body_is_base64 == self.body_is_base64,
    {
        let mut s = self;
        s.headers.insert(key, value);
        s
    }

    /// The request with `value` stored under the query parameter `key`.
    pub fn with_query(self, key: String, value: String) -> (r: Self)
        ensures
            r.query@ == self.query@.insert(key@, value@),
            r.headers@ == self.headers@,
            r.method == self.method,
            r.path == self.path,
            r.body == self.body,
            r.content_type == self.content_type,
            r.body_is_base64 == self.body_is_base64,
    {
        let mut s = self;
        s.query.insert(key, value);
        s
    }

    /// The request with the given content type.
    pub fn with_content_type(self, content_type: String) -> (r: Self)
        ensures
            r.content_type == Some(content_type),
            r.query@ == self.query@,
            r.headers@ == self.headers@,
            r.method == self.method,
            r.path == self.path,
            r.body == self.body,
            r.body_is_base64 == self.body_is_base64,
    {
        let mut s = self;
        s.content_type = Some(content_type);
        s
    }

    /// The body as bytes: decoded from base64 when marked so, else its
    /// UTF-8 bytes.
    pub fn decode_body(&self) -> (r: Result<Vec<u8>, base64::DecodeError>)
        ensures
            r is Ok <==> body_bytes_of(self.body@, vstd::utf8::encode_utf8(self.body@), self.body_is_base64) is Some,
            r is Ok ==> body_bytes_of(self.body@, vstd::utf8::encode_utf8(self.body@), self.body_is_base64)
                == Some(r->Ok_0@),
    {
        decode(&self.body, self.body_is_base64)
    }
}

impl WasmResponse {
    /// A 200 response with a JSON body.
    pub fn ok(body: String) -> (r: Self)
        ensures
            r.status == 200,
            r.body == body,
            r.headers@ == Map::<Seq<char>, Seq<char>>::empty(),
            r.content_type matches Some(c) && c@ == "application/json"@,
            !r.body_is_base64,
    {
        WasmResponse {
            status: 200,
            headers: StringMap::new(),
            body,
            content_type: Some(lit("application/json")),
            body_is_base64: false,
        }
    }

    /// A 200 response whose body is `binary_body` in base64, with the given
    /// content type or `application/octet-stream`.
    pub fn ok_binary(binary_body: Vec<u8>, content_type: Option<String>) -> (r: Self)
        ensures
            r.status == 200,
            r.body@ == spec_base64_encode(binary_body@),
            r.headers@ == Map::<Seq<char>, Seq<char>>::empty(),
            match content_type {
                Some(c) => r.content_type == Some(c),
                None => r.content_type matches Some(c) && c@ == "application/octet-stream"@,
            },
            r.body_is_base64,
            body_bytes_of(r.body@, vstd::utf8::encode_utf8(r.body@), r.body_is_base64) == Some(
                binary_body@,
            ),
    {
        let body = base64_encode(binary_body.as_slice());
        let content_type = match content_type {
            Some(c) => Some(c),
            None => Some(lit("application/octet-stream")),
        };
        WasmResponse { status: 200, headers: StringMap::new(), body, content_type, body_is_base64: true }
    }

    /// A JSON error response: `{"error":true,"message":...,"status":...}`.
    pub fn error(status: u16, message: String) -> (r: Self)
        ensures
            r.status == status,
            r.body@ == error_body(status, message@),
            r.headers@ == Map::<Seq<char>, Seq<char>>::empty(),
            r.content_type matches Some(c) && c@ == "application/json"@,
            !r.body_is_base64,
    {
        let quoted = json_quote(message.as_str());
        let mut body = lit("{\"error\":true,\"message\":");
        body.append(quoted.as_str());
        let digits = decimal_chars(status as u64);
        let tail = concat3(",\"status\":", digits.as_slice(), "}");
        body.append(tail.as_str());
        WasmResponse {
            status,
            headers: StringMap::new(),
            body,
            content_type: Some(lit("application/json")),
            body_is_base64: false,
        }
    }

    /// A 404 error response.
    pub fn not_found(message: String) -> (r: Self)
        ensures
            r.status == 404,
            r.body@ == error_body(404, message@),
            r.headers@ == Map::<Seq<char>, Seq<char>>::empty(),
            r.content_type matches Some(c) && c@ == "application/json"@,
            !r.body_is_base64,
    {
        Self::error(404, message)
    }

    /// The response with `value` stored under the header `key`.
    pub fn with_header(self, key: String, value: String) -> (r: Self)
        ensures
            r.headers@ == self.headers@.insert(key@, value@),
            r.status == self.status,
            r.body == self.body,
            r.content_type == self.content_type,
            r.body_is_base64 == self.body_is_base64,
    {
        let mut s = self;
        s.headers.insert(key, value);
        s
    }

    /// The response with the given content type.
    pub fn with_content_type(self, content_type: String) -> (r: Self)
        ensures
            r.content_type == Some(content_type),
            r.headers@ == self.headers@,
            r.status == self.status,
            r.body == self.body,
            r.body_is_base64 == self.body_is_base64,
    {
        let mut s = self;
        s.content_type = Some(content_type);
        s
    }

    /// The body as bytes: decoded from base64 when marked so, else its
    /// UTF-8 bytes.
    pub fn decode_body(&self) -> (r: Result<Vec<u8>, base64::DecodeError>)
        ensures
            r is Ok <==> body_bytes_of(self.body@, vstd::utf8::encode_utf8(self.body@), self.body_is_base64) is Some,
            r is Ok ==> body_bytes_of(self.body@, vstd::utf8::encode_utf8(self.body@), self.body_is_base64)
                == Some(r->Ok_0@),
    {
        decode(&self.body, self.body_is_base64)
    }

    /// The body as bytes (as `decode_body`).
    pub fn body_bytes(&self) -> (r: Result<Vec<u8>, base64::DecodeError>)
        ensures
            r is Ok <==> body_bytes_of(self.body@, vstd::utf8::encode_utf8(self.body@), self.body_is_base64) is Some,
            r is Ok ==> body_bytes_of(self.body@, vstd::utf8::encode_utf8(self.body@), self.body_is_base64)
                == Some(r->Ok_0@),
    {
        self.decode_body()
    }
}

impl Default for WasmResponse {
    /// An empty 200 JSON response.
    fn default() -> (r: Self)
        ensures
            r.status == 200,
            r.body@ == Seq::<char>::empty(),
            r.headers@ == Map::<Seq<char>, Seq<char>>::empty(),
            r.content_type matches Some(c) && c@ == "application/json"@,
            !r.body_is_base64,
    {
        WasmResponse {
            status: 200,
            headers: StringMap::new(),
            body: String::new(),
            content_type: Some(lit("application/json")),
            body_is_base64: false,
        }
    }
}

} // verus!
