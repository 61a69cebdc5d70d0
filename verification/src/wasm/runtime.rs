//! Settings of the WebAssembly runtime and the limits it enforces while a
//! module runs.

use vstd::prelude::*;
use crate::time::Duration;
use crate::text::lit;

verus! {

/// Settings of the WebAssembly runtime.
#[derive(Debug, Clone)]
pub struct WasmRuntimeConfig {
    /// Maximum memory in bytes
    pub max_memory_bytes: usize,
    /// Maximum execution time (zero for none)
    pub max_execution_time: Duration,
    /// Run modules asynchronously
    pub enable_async: bool,
    /// Give modules WASI
    pub enable_wasi: bool,
    /// Meter fuel to limit CPU use
    pub enable_fuel: bool,
    /// Fuel a store starts with, when metered
    pub initial_fuel: u64,
}

impl Default for WasmRuntimeConfig {
    /// 128 MiB of memory, 30 s, async and WASI on, ten million units of fuel.
    fn default() -> (r: Self)
        ensures
            r.max_memory_bytes == 128 * 1024 * 1024,
            r.max_execution_time@ == 30_000_000_000nat,
            r.enable_async,
            r.enable_wasi,
            r.enable_fuel,
            r.initial_fuel == 10_000_000,
    {
        WasmRuntimeConfig {
            max_memory_bytes: 128 * 1024 * 1024,
            max_execution_time: Duration::from_secs(30),
            enable_async: true,
            enable_wasi: true,
            enable_fuel: true,
            initial_fuel: 10_000_000,
        }
    }
}

impl WasmRuntimeConfig {
    /// Whether runs are cut off after `max_execution_time`: unless it is zero.
    pub fn enforces_timeout(&self) -> (r: bool)
        ensures
            r == (self.max_execution_time@ != 0),
    {
        self.max_execution_time.as_nanos() != 0
    }

    /// The fuel a new store is given: the initial fuel when fuel is metered.
    pub fn store_fuel(&self) -> (r: Option<u64>)
        ensures
            self.enable_fuel ==> r == Some(self.initial_fuel),
            !self.enable_fuel ==> r is None,
    {
        if self.enable_fuel {
            Some(self.initial_fuel)
        } else {
            None
        }
    }
}

/// The most memory a running module may grow to: 512 MiB.
pub const MAX_GROWN_MEMORY_BYTES: usize = 536870912;

/// The most table elements a running module may grow to.
pub const MAX_GROWN_TABLE_ELEMENTS: usize = 10000;

/// Whether a module may grow its memory to `desired` bytes: up to 512 MiB.
pub fn memory_growing(desired: usize) -> (r: bool)
    ensures
        r == (desired <= 512 * 1024 * 1024),
{
    desired <= MAX_GROWN_MEMORY_BYTES
}

/// Whether a module may grow a table to `desired` elements: up to 10000.
pub fn table_growing(desired: usize) -> (r: bool)
    ensures
        r == (desired <= 10000),
{
    desired <= MAX_GROWN_TABLE_ELEMENTS
}

/// What a command component's run comes to: success, or an error when it
/// gave an error exit code.
pub fn command_outcome(run: Result<(), ()>) -> (r: Result<(), String>)
    ensures
        run is Ok ==> r is Ok,
        run is Err ==> (r matches Err(m) && m@ == "Component returned error exit code"@),
{
    match run {
        Ok(()) => Ok(()),
        Err(()) => Err(lit("Component returned error exit code")),
    }
}

} // verus!
