//! The host functions offered to modules: reading and writing guest
//! memory, the key-value storage a module sees, and how HTTP results are
//! handed back.

use vstd::prelude::*;
use crate::assoc::TextMap;
use crate::gateway::api::{lossy_text, spec_lossy_text};
use crate::text::{copy_bytes, texts_of, copy_strings};

use crate::wasm::loader::{blake3_hash, spec_blake3};

verus! {

/// Why a host function failed.
#[derive(Debug, Clone, Copy, PartialEq, Eq, Structural)]
pub enum HostError {
    /// The guest's key lies outside its memory.
    InvalidKey,
    /// The guest's value lies outside its memory.
    InvalidValue,
    /// The guest's URL lies outside its memory.
    InvalidUrl,
    /// The guest's request body lies outside its memory.
    InvalidBody,
    /// The output buffer lies outside the guest's memory.
    InvalidOutput,
    /// The bytes to hash lie outside the guest's memory.
    InvalidInput,
    /// The message to log lies outside the guest's memory.
    InvalidMemory,
}

impl HostError {
    /// The error's message.
    pub fn message(&self) -> (r: &'static str)
        ensures
            r@ == host_error_text(*self),
    {
        match self {
            HostError::InvalidKey => "Invalid memory access for key",
            HostError::InvalidValue => "Invalid memory access for value",
            HostError::InvalidUrl => "Invalid memory access for URL",
            HostError::InvalidBody => "Invalid memory access for body",
            HostError::InvalidOutput => "Invalid memory access for output",
            HostError::InvalidInput => "Invalid memory access for input",
            HostError::InvalidMemory => "Invalid memory access",
        }
    }
}

/// The message of a host error.
pub open spec fn host_error_text(e: HostError) -> Seq<char> {
    match e {
        HostError::InvalidKey => "Invalid memory access for key"@,
        HostError::InvalidValue => "Invalid memory access for value"@,
        HostError::InvalidUrl => "Invalid memory access for URL"@,
        HostError::InvalidBody => "Invalid memory access for body"@,
        HostError::InvalidOutput => "Invalid memory access for output"@,
        HostError::InvalidInput => "Invalid memory access for input"@,
        HostError::InvalidMemory => "Invalid memory access"@,
    }
}

/// `len` bytes at `ptr` lie inside a guest memory of `mem_len` bytes: both
/// are non-negative, their sum is an `i32`, and it does not pass the end.
pub open spec fn guest_range_ok(mem_len: int, ptr: i32, len: i32) -> bool {
    0 <= ptr && 0 <= len && ptr + len <= i32::MAX && ptr + len <= mem_len
}

/// The `len` bytes of guest memory at `ptr`, when they lie inside it.
pub fn read_guest(memory: &[u8], ptr: i32, len: i32) -> (r: Option<Vec<u8>>)
    ensures
        r is Some <==> guest_range_ok(memory@.len() as int, ptr, len),
        r matches Some(b) ==> b@ == memory@.subrange(ptr as int, ptr + len),
{
    if ptr < 0 || len < 0 {
        return None;
    }
    let end: i64 = ptr as i64 + len as i64;
    if end > 0x7fff_ffff || end as usize > memory.len() {
        return None;
    }
    let start = ptr as usize;
    let end = end as usize;
    let mut out: Vec<u8> = Vec::new();
    let mut i: usize = start;
    while i < end
        invariant
            start <= i <= end <= memory@.len(),
            start == ptr,
            out@ == memory@.subrange(start as int, i as int),
        decreases end - i,
    {
        out.push(memory[i]);
        proof {
            assert(memory@.subrange(start as int, i + 1) =~= memory@.subrange(start as int, i as int).push(
                memory@[i as int],
            ));
        }
        i = i + 1;
    }
    Some(out)
}

/// How many bytes of `data_len` are written into a buffer of `max_len`
/// bytes: all of them when `max_len` is negative (it then counts as
/// unbounded), else no more than `max_len`.
pub open spec fn write_len_of(data_len: int, max_len: i32) -> int {
    if max_len < 0 || data_len <= max_len {
        data_len
    } else {
        max_len as int
    }
}

/// Guest memory after the first `n` bytes of `data` are written at `ptr`.
pub open spec fn written(memory: Seq<u8>, ptr: int, data: Seq<u8>, n: int) -> Seq<u8> {
    memory.subrange(0, ptr) + data.take(n) + memory.skip(ptr + n)
}

/// Writes as much of `data` as `max_len` allows at `ptr` (see
/// `write_len_of`), giving the count written; nothing is written where the
/// bytes would not lie inside the memory.
pub fn write_guest(memory: &mut Vec<u8>, ptr: i32, data: &[u8], max_len: i32) -> (r: Option<usize>)
    ensures
        r is Some <==> (0 <= ptr && ptr + write_len_of(data@.len() as int, max_len) <= old(memory)@.len()),
        r matches Some(n) ==> n == write_len_of(data@.len() as int, max_len) && final(memory)@ == written(
            old(memory)@,
            ptr as int,
            data@,
            n as int,
        ),
        r is None ==> final(memory)@ == old(memory)@,
{
    let n: usize = if max_len < 0 || data.len() <= max_len as usize {
        data.len()
    } else {
        max_len as usize
    };
    if ptr < 0 || n > memory.len() || ptr as usize > memory.len() - n {
        return None;
    }
    let start = ptr as usize;
    let ghost m0 = memory@;
    assert(memory@ =~= written(m0, start as int, data@, 0));
    let mut k: usize = 0;
    while k < n
        invariant
            0 <= k <= n <= data@.len(),
            start == ptr,
            start + n <= m0.len(),
            memory@.len() == m0.len(),
            start + n <= memory.len(),
            memory@ == written(m0, start as int, data@, k as int),
        decreases n - k,
    {
        memory.set(start + k, data[k]);
        proof {
            assert(memory@ =~= written(m0, start as int, data@, k + 1));
        }
        k = k + 1;
    }
    Some(n)
}

/// What `storage.get` does to the store and memory: the key is read from
/// guest memory as text; a missing value answers -1; else as much of the
/// value as fits the output buffer is written there and the count (as an
/// `i32`) is answered.
pub fn storage_get(
    store: &TextMap<Vec<u8>>,
    memory: &mut Vec<u8>,
    key_ptr: i32,
    key_len: i32,
    out_ptr: i32,
    out_max_len: i32,
) -> (r: Result<i32, HostError>)
    ensures
        !guest_range_ok(old(memory)@.len() as int, key_ptr, key_len) ==> r == Err::<i32, HostError>(
            HostError::InvalidKey,
        ) && final(memory)@ == old(memory)@,
        guest_range_ok(old(memory)@.len() as int, key_ptr, key_len) ==> ({
            let key = spec_lossy_text(old(memory)@.subrange(key_ptr as int, key_ptr + key_len));
            if !store@.contains_key(key) {
                r == Ok::<i32, HostError>(-1i32) && final(memory)@ == old(memory)@
            } else {
                let v = store@[key]@;
                let n = write_len_of(v.len() as int, out_max_len);
                if 0 <= out_ptr && out_ptr + n <= old(memory)@.len() {
                    r == Ok::<i32, HostError>(n as i32) && final(memory)@ == written(
                        old(memory)@,
                        out_ptr as int,
                        v,
                        n,
                    )
                } else {
                    r == Err::<i32, HostError>(HostError::InvalidOutput) && final(memory)@ == old(
                        memory,
                    )@
                }
            }
        }),
{
    let key_bytes = match read_guest(memory.as_slice(), key_ptr, key_len) {
        Some(b) => b,
        None => {
            return Err(HostError::InvalidKey);
        },
    };
    let key = lossy_text(key_bytes.as_slice());
    match store.get(key.as_str()) {
        Some(val) => match write_guest(memory, out_ptr, val.as_slice(), out_max_len) {
            Some(n) => {
                #[verifier::truncate]
                let count = n as i32;
                Ok(count)
            },
            None => Err(HostError::InvalidOutput),
        },
        None => Ok(-1),
    }
}

/// What `storage.set` does: key (as text) and value are read from guest
/// memory and the value is stored under the key; it answers 0.
pub fn storage_set(
    store: &mut TextMap<Vec<u8>>,
    memory: &[u8],
    key_ptr: i32,
    key_len: i32,
    value_ptr: i32,
    value_len: i32,
) -> (r: Result<i32, HostError>)
    ensures
        !guest_range_ok(memory@.len() as int, key_ptr, key_len) ==> r == Err::<i32, HostError>(
            HostError::InvalidKey,
        ) && final(store)@ == old(store)@,
        guest_range_ok(memory@.len() as int, key_ptr, key_len) && !guest_range_ok(
            memory@.len() as int,
            value_ptr,
            value_len,
        ) ==> r == Err::<i32, HostError>(HostError::InvalidValue) && final(store)@ == old(store)@,
        guest_range_ok(memory@.len() as int, key_ptr, key_len) && guest_range_ok(
            memory@.len() as int,
            value_ptr,
            value_len,
        ) ==> r == Ok::<i32, HostError>(0) && final(store)@.dom() == old(store)@.dom().insert(
            spec_lossy_text(memory@.subrange(key_ptr as int, key_ptr + key_len)),
        ) && final(store)@[spec_lossy_text(memory@.subrange(key_ptr as int, key_ptr + key_len))]@
            == memory@.subrange(value_ptr as int, value_ptr + value_len) && forall|k: Seq<char>|
            k != spec_lossy_text(memory@.subrange(key_ptr as int, key_ptr + key_len))
                && #[trigger] old(store)@.contains_key(k) ==> final(store)@[k] == old(store)@[k],
{
    let key_bytes = match read_guest(memory, key_ptr, key_len) {
        Some(b) => b,
        None => {
            return Err(HostError::InvalidKey);
        },
    };
    let value = match read_guest(memory, value_ptr, value_len) {
        Some(b) => b,
        None => {
            return Err(HostError::InvalidValue);
        },
    };
    let key = lossy_text(key_bytes.as_slice());
    store.insert(key, value);
    Ok(0)
}

/// What `storage.delete` does: the key (as text) is read from guest memory
/// and removed; it answers 1 if it was there, else 0.
pub fn storage_delete(store: &mut TextMap<Vec<u8>>, memory: &[u8], key_ptr: i32, key_len: i32) -> (r: Result<
    i32,
    HostError,
>)
    ensures
        !guest_range_ok(memory@.len() as int, key_ptr, key_len) ==> r == Err::<i32, HostError>(
            HostError::InvalidKey,
        ) && final(store)@ == old(store)@,
        guest_range_ok(memory@.len() as int, key_ptr, key_len) ==> ({
            let key = spec_lossy_text(memory@.subrange(key_ptr as int, key_ptr + key_len));
            &&& final(store)@ == old(store)@.remove(key)
            &&& r == Ok::<i32, HostError>(if old(store)@.contains_key(key) { 1 } else { 0 })
        }),
{
    let key_bytes = match read_guest(memory, key_ptr, key_len) {
        Some(b) => b,
        None => {
            return Err(HostError::InvalidKey);
        },
    };
    let key = lossy_text(key_bytes.as_slice());
    match store.remove(key.as_str()) {
        Some(_) => Ok(1),
        None => Ok(0),
    }
}

/// What `storage.list_count` answers: the number of keys, as an `i32`.
pub fn storage_list_count(store: &TextMap<Vec<u8>>) -> (r: i32)
    ensures
        r == store@.len() as i32,
{
    let n = store.len();
    #[verifier::truncate]
    let count = n as i32;
    count
}

/// The status and body an HTTP call hands back: the response's status and
/// body; 500 and no body when the body could not be read; 0 and no body
/// when the request failed.
pub open spec fn http_result_of(outcome: Option<(u16, Option<Seq<u8>>)>) -> (i32, Seq<u8>) {
    match outcome {
        Some((status, Some(body))) => (status as i32, body),
        Some((_, None)) => (500, Seq::empty()),
        None => (0, Seq::empty()),
    }
}

/// The status and body of an HTTP call's outcome (`None` where the request
/// failed; a status with `None` where its body could not be read).
pub fn http_result(outcome: Option<(u16, Option<Vec<u8>>)>) -> (r: (i32, Vec<u8>))
    ensures
        0 <= r.0 <= 0xffff,
        (r.0, r.1@) == http_result_of(match outcome {
            Some((s, Some(b))) => Some((s, Some(b@))),
            Some((s, None)) => Some((s, None)),
            None => None,
        }),
{
    match outcome {
        Some((status, Some(body))) => (status as i32, body),
        Some((_, None)) => (500, Vec::new()),
        None => (0, Vec::new()),
    }
}

/// The `i64` an HTTP host function answers: the status in the high 32
/// bits, the count written in the low ones (or-ed in).
pub fn http_pack(status: i32, write_len: usize) -> (r: i64)
    requires
        0 <= status <= 0xffff,
    ensures
        r == (((status as i64) * 0x1_0000_0000) as i64) | (write_len as i64),
        write_len < 0x1_0000_0000 ==> r == status * 0x1_0000_0000 + write_len,
{
    let s: i64 = status as i64;
    #[verifier::truncate]
    let w: i64 = write_len as i64;
    assert(s * 0x1_0000_0000 <= 0xffff * 0x1_0000_0000) by (nonlinear_arith)
        requires
            0 <= s <= 0xffff,
    ;
    let shifted: i64 = s * 0x1_0000_0000;
    if (write_len as u64) < 0x1_0000_0000u64 {
        assert(w == write_len);
        assert((shifted | w) == shifted + w) by (bit_vector)
            requires
                0 <= w < 0x1_0000_0000,
                shifted == s * 0x1_0000_0000,
                0 <= s <= 0xffff,
        ;
    }
    shifted | w
}

/// The URL a module asks for: its bytes in guest memory, as text.
pub fn read_url(memory: &[u8], url_ptr: i32, url_len: i32) -> (r: Result<String, HostError>)
    ensures
        r is Ok <==> guest_range_ok(memory@.len() as int, url_ptr, url_len),
        r matches Ok(u) ==> u@ == spec_lossy_text(memory@.subrange(url_ptr as int, url_ptr + url_len)),
        r matches Err(e) ==> e == HostError::InvalidUrl,
{
    match read_guest(memory, url_ptr, url_len) {
        Some(b) => Ok(lossy_text(b.as_slice())),
        None => Err(HostError::InvalidUrl),
    }
}

/// The body a module posts: its bytes in guest memory.
pub fn read_body(memory: &[u8], body_ptr: i32, body_len: i32) -> (r: Result<Vec<u8>, HostError>)
    ensures
        r is Ok <==> guest_range_ok(memory@.len() as int, body_ptr, body_len),
        r matches Ok(b) ==> b@ == memory@.subrange(body_ptr as int, body_ptr + body_len),
        r matches Err(e) ==> e == HostError::InvalidBody,
{
    match read_guest(memory, body_ptr, body_len) {
        Some(b) => Ok(b),
        None => Err(HostError::InvalidBody),
    }
}

/// Hands an HTTP call's outcome back to the module: as much of the body as
/// fits is written at `out_ptr`, and the status and count are answered
/// packed (see `http_pack`).
pub fn http_reply_to_guest(
    memory: &mut Vec<u8>,
    out_ptr: i32,
    out_max_len: i32,
    outcome: Option<(u16, Option<Vec<u8>>)>,
) -> (r: Result<i64, HostError>)
    ensures
        ({
            let (status, body) = http_result_of(match outcome {
                Some((s, Some(b))) => Some((s, Some(b@))),
                Some((s, None)) => Some((s, None)),
                None => None,
            });
            let n = write_len_of(body.len() as int, out_max_len);
            if 0 <= out_ptr && out_ptr + n <= old(memory)@.len() {
                &&& final(memory)@ == written(old(memory)@, out_ptr as int, body, n)
                &&& r matches Ok(packed)
                &&& packed == (((status as i64) * 0x1_0000_0000) as i64) | (n as usize as i64)
                &&& (n < 0x1_0000_0000 ==> packed == status * 0x1_0000_0000 + n)
            } else {
                r == Err::<i64, HostError>(HostError::InvalidOutput) && final(memory)@ == old(memory)@
            }
        }),
{
    let (status, body) = http_result(outcome);
    match write_guest(memory, out_ptr, body.as_slice(), out_max_len) {
        Some(n) => Ok(http_pack(status, n)),
        None => Err(HostError::InvalidOutput),
    }
}

/// What the host keeps for the modules it runs: the messages they logged,
/// oldest first, and the key-value storage they share.
pub struct HostFunctions {
    /// The messages logged so far.
    pub log_messages: Vec<String>,
    /// The modules' key-value storage.
    pub storage: TextMap<Vec<u8>>,
}

impl HostFunctions {
    /// The texts of the logged messages, oldest first.
    pub open spec fn logs(&self) -> Seq<Seq<char>> {
        texts_of(self.log_messages@)
    }

    /// No messages logged and nothing stored.
    pub fn new() -> (r: Self)
        ensures
            r.logs() == Seq::<Seq<char>>::empty(),
            r.storage@ == Map::<Seq<char>, Vec<u8>>::empty(),
    {
        let r = HostFunctions { log_messages: Vec::new(), storage: TextMap::new() };
        assert(r.logs() =~= Seq::<Seq<char>>::empty());
        r
    }

    /// The messages logged so far, oldest first.
    pub fn get_logs(&self) -> (r: Vec<String>)
        ensures
            texts_of(r@) == self.logs(),
    {
        copy_strings(&self.log_messages)
    }

    /// Forgets the logged messages; the storage stays.
    pub fn clear_logs(&mut self)
        ensures
            final(self).logs() == Seq::<Seq<char>>::empty(),
            final(self).storage@ == old(self).storage@,
    {
        self.log_messages = Vec::new();
        assert(self.logs() =~= Seq::<Seq<char>>::empty());
    }

    /// `host.log` of a core module: the `len` bytes at `ptr` in guest
    /// memory, as text, are added to the log.
    pub fn log(&mut self, memory: &[u8], ptr: i32, len: i32) -> (r: Result<(), HostError>)
        ensures
            guest_range_ok(memory@.len() as int, ptr, len) ==> r is Ok && final(self).logs() == old(
                self,
            ).logs().push(spec_lossy_text(memory@.subrange(ptr as int, ptr + len))),
            !guest_range_ok(memory@.len() as int, ptr, len) ==> r == Err::<(), HostError>(
                HostError::InvalidMemory,
            ) && final(self).logs() == old(self).logs(),
            final(self).storage@ == old(self).storage@,
    {
        match read_guest(memory, ptr, len) {
            Some(bytes) => {
                let message = lossy_text(bytes.as_slice());
                self.log_message(message);
                Ok(())
            },
            None => Err(HostError::InvalidMemory),
        }
    }

    /// `host.log` of a component: the message is added to the log.
    pub fn log_message(&mut self, message: String)
        ensures
            final(self).logs() == old(self).logs().push(message@),
            final(self).storage@ == old(self).storage@,
    {
        let ghost m = message@;
        self.log_messages.push(message);
        assert(self.logs() =~= old(self).logs().push(m));
    }

    /// `storage.get` of a component: whether the key is stored, and its
    /// value (empty when it is not).
    pub fn component_storage_get(&self, key: &str) -> (r: (bool, Vec<u8>))
        ensures
            r.0 == self.storage@.contains_key(key@),
            r.0 ==> r.1@ == self.storage@[key@]@,
            !r.0 ==> r.1@ == Seq::<u8>::empty(),
    {
        match self.storage.get(key) {
            Some(v) => (true, copy_bytes(v.as_slice())),
            None => (false, Vec::new()),
        }
    }

    /// `storage.set` of a component: the value is stored under the key; it
    /// answers `true`.
    pub fn component_storage_set(&mut self, key: String, value: Vec<u8>) -> (r: bool)
        ensures
            r,
            final(self).storage@ == old(self).storage@.insert(key@, value),
            final(self).logs() == old(self).logs(),
    {
        self.storage.insert(key, value);
        true
    }

    /// `storage.delete` of a component: the key is removed; it answers
    /// whether it was stored.
    pub fn component_storage_delete(&mut self, key: &str) -> (r: bool)
        ensures
            r == old(self).storage@.contains_key(key@),
            final(self).storage@ == old(self).storage@.remove(key@),
            final(self).logs() == old(self).logs(),
    {
        match self.storage.remove(key) {
            Some(_) => true,
            None => false,
        }
    }

    /// `storage.list_count` of a component: the number of keys, as a `u32`.
    pub fn component_storage_list_count(&self) -> (r: u32)
        ensures
            r == self.storage@.len() as u32,
    {
        let n = self.storage.len();
        #[verifier::truncate]
        let count = n as u32;
        count
    }
}

/// What a module stores it reads back: after `storage.set(k, v)` a
/// `storage.get(k)` finds `v` and other keys keep their values; after
/// `storage.delete(k)` the key is gone (see the `component_storage_*`
/// methods of `HostFunctions`, whose contracts speak of this map).
pub proof fn lemma_host_storage_read_your_write(
    store: Map<Seq<char>, Vec<u8>>,
    k: Seq<char>,
    v: Vec<u8>,
    other: Seq<char>,
)
    requires
        other != k,
    ensures
        store.insert(k, v).contains_key(k),
        store.insert(k, v)[k] == v,
        store.insert(k, v).contains_key(other) == store.contains_key(other),
        store.contains_key(other) ==> store.insert(k, v)[other] == store[other],
        !store.insert(k, v).remove(k).contains_key(k),
{
}

/// `crypto.blake3_hash` of a core module: the BLAKE3 digest of the
/// `data_len` bytes at `data_ptr` is written, all 32 bytes, at `out_ptr`.
pub fn guest_blake3(memory: &mut Vec<u8>, data_ptr: i32, data_len: i32, out_ptr: i32) -> (r: Result<
    (),
    HostError,
>)
    ensures
        !guest_range_ok(old(memory)@.len() as int, data_ptr, data_len) ==> r == Err::<(), HostError>(
            HostError::InvalidInput,
        ) && final(memory)@ == old(memory)@,
        guest_range_ok(old(memory)@.len() as int, data_ptr, data_len) ==> ({
            let digest = spec_blake3(old(memory)@.subrange(data_ptr as int, data_ptr + data_len));
            if 0 <= out_ptr && out_ptr + 32 <= old(memory)@.len() {
                r is Ok && final(memory)@ == written(old(memory)@, out_ptr as int, digest, 32)
            } else {
                r == Err::<(), HostError>(HostError::InvalidOutput) && final(memory)@ == old(memory)@
            }
        }),
{
    let data = match read_guest(memory.as_slice(), data_ptr, data_len) {
        Some(d) => d,
        None => {
            return Err(HostError::InvalidInput);
        },
    };
    let digest = blake3_hash(data.as_slice());
    let bytes = vstd::array::array_as_slice(&digest);
    assert(bytes@.len() == 32);
    match write_guest(memory, out_ptr, bytes, 32) {
        Some(_) => Ok(()),
        None => Err(HostError::InvalidOutput),
    }
}

/// `crypto.blake3_hash` of a component: the BLAKE3 digest of the data.
pub fn component_blake3(data: &[u8]) -> (r: Vec<u8>)
    ensures
        r@ == spec_blake3(data@),
        r@.len() == 32,
{
    let digest = blake3_hash(data);
    let bytes = vstd::array::array_as_slice(&digest);
    copy_bytes(bytes)
}

} // verus!
