//! Resource limits for running modules, and the checks made against them.

use vstd::prelude::*;
use crate::time::{Duration, instant_now, elapsed_since};
use crate::text::{decimal, decimal_chars, chars_of, push_all, string_from_chars};

verus! {

/// Resource limits for module execution.
#[derive(Debug, Clone)]
pub struct ResourceLimits {
    /// Maximum memory in bytes
    pub max_memory_bytes: usize,
    /// Maximum execution time
    pub max_execution_time: Duration,
    /// Maximum fuel (instruction count)
    pub max_fuel: u64,
    /// Maximum stack depth
    pub max_stack_depth: usize,
    /// Maximum number of table elements
    pub max_table_elements: u64,
}

/// The limits as plain numbers: memory, time in nanoseconds, fuel, stack,
/// table elements.
pub open spec fn limits_view(l: ResourceLimits) -> (nat, nat, nat, nat, nat) {
    (
        l.max_memory_bytes as nat,
        l.max_execution_time@,
        l.max_fuel as nat,
        l.max_stack_depth as nat,
        l.max_table_elements as nat,
    )
}

impl Default for ResourceLimits {
    /// 128 MiB, 30 s, 10M fuel, 1024 frames, 10 000 table elements.
    fn default() -> (r: Self)
        ensures
            limits_view(r) == (
                134217728nat,
                30_000_000_000nat,
                10_000_000nat,
                1024nat,
                10_000nat,
            ),
    {
        ResourceLimits {
            max_memory_bytes: 128 * 1024 * 1024,
            max_execution_time: Duration::from_secs(30),
            max_fuel: 10_000_000,
            max_stack_depth: 1024,
            max_table_elements: 10_000,
        }
    }
}

impl ResourceLimits {
    /// Limits for untrusted code: 16 MiB, 5 s, 1M fuel, 256 frames,
    /// 1000 table elements.
    pub fn conservative() -> (r: Self)
        ensures
            limits_view(r) == (16777216nat, 5_000_000_000nat, 1_000_000nat, 256nat, 1000nat),
    {
        ResourceLimits {
            max_memory_bytes: 16 * 1024 * 1024,
            max_execution_time: Duration::from_secs(5),
            max_fuel: 1_000_000,
            max_stack_depth: 256,
            max_table_elements: 1_000,
        }
    }

    /// Limits for trusted code: 512 MiB, 120 s, 100M fuel, 4096 frames,
    /// 100 000 table elements.
    pub fn permissive() -> (r: Self)
        ensures
            limits_view(r) == (
                536870912nat,
                120_000_000_000nat,
                100_000_000nat,
                4096nat,
                100_000nat,
            ),
    {
        ResourceLimits {
            max_memory_bytes: 512 * 1024 * 1024,
            max_execution_time: Duration::from_secs(120),
            max_fuel: 100_000_000,
            max_stack_depth: 4096,
            max_table_elements: 100_000,
        }
    }
}

/// An execution under way: its limits, when it started, and its fuel.
pub struct ExecutionContext {
    /// Resource limits
    pub limits: ResourceLimits,
    start_time: std::time::Instant,
    initial_fuel: u64,
}

impl ExecutionContext {
    /// The limits of the execution.
    pub closed spec fn spec_limits(&self) -> ResourceLimits {
        self.limits
    }

    /// The fuel the execution started with.
    pub closed spec fn spec_initial_fuel(&self) -> u64 {
        self.initial_fuel
    }

    /// Starts an execution now, with all the fuel the limits allow.
    pub fn new(limits: ResourceLimits) -> (r: Self)
        ensures
            r.spec_limits() == limits,
            r.spec_initial_fuel() == limits.max_fuel,
    {
        let initial_fuel = limits.max_fuel;
        ExecutionContext { initial_fuel, limits, start_time: instant_now() }
    }

    /// Whether `elapsed` is more than the time limit.
    pub fn exceeds_time(&self, elapsed: Duration) -> (r: bool)
        ensures
            r == (elapsed@ > self.spec_limits().max_execution_time@),
    {
        elapsed.longer_than(&self.limits.max_execution_time)
    }

    /// The time since the execution started.
    pub fn elapsed_time(&self) -> (r: Duration) {
        let (secs, nanos) = elapsed_since(&self.start_time);
        Duration::new(secs, nanos)
    }

    /// Whether the time since the execution started is more than the time
    /// limit (see `exceeds_time`).
    pub fn is_time_exceeded(&self) -> (r: bool) {
        let elapsed = self.elapsed_time();
        self.exceeds_time(elapsed)
    }

    /// The fuel used, given what remains: the initial fuel less the
    /// remainder, or zero if more remains than was given.
    pub fn fuel_consumed(&self, remaining_fuel: u64) -> (r: u64)
        ensures
            r == if remaining_fuel <= self.spec_initial_fuel() {
                (self.spec_initial_fuel() - remaining_fuel) as u64
            } else {
                0
            },
    {
        self.initial_fuel.saturating_sub(remaining_fuel)
    }
}

/// Statistics of an execution.
#[derive(Debug, Clone)]
pub struct ExecutionStats {
    /// Time taken
    pub duration: Duration,
    /// Memory used (peak)
    pub memory_used: usize,
    /// Fuel consumed (instructions executed)
    pub fuel_consumed: u64,
    /// The limits that were hit
    pub limits_hit: Vec<String>,
}

impl ExecutionStats {
    /// Statistics of nothing run yet.
    pub fn new() -> (r: Self)
        ensures
            r.duration@ == 0,
            r.memory_used == 0,
            r.fuel_consumed == 0,
            r.limits_hit@.len() == 0,
    {
        ExecutionStats {
            duration: Duration::zero(),
            memory_used: 0,
            fuel_consumed: 0,
            limits_hit: Vec::new(),
        }
    }
}

impl Default for ExecutionStats {
    /// As `new`.
    fn default() -> (r: Self)
        ensures
            r.duration@ == 0,
            r.memory_used == 0,
            r.fuel_consumed == 0,
            r.limits_hit@.len() == 0,
    {
        Self::new()
    }
}

/// Bytes in a page of module memory.
pub const WASM_PAGE_BYTES: u64 = 65536;

/// The complaint about a module's declared minimums, if any: the first
/// memory needing more than the memory limit, else the first table needing
/// more elements than the table limit.
pub open spec fn requirement_fault(
    limits: ResourceLimits,
    memory_pages: Seq<u64>,
    table_elements: Seq<u64>,
) -> Option<Seq<char>> {
    let m = memory_fault(limits.max_memory_bytes as nat, memory_pages);
    if m is Some {
        m
    } else {
        table_fault(limits.max_table_elements as nat, table_elements)
    }
}

/// The first memory whose minimum exceeds `max` bytes.
pub open spec fn memory_fault(max: nat, pages: Seq<u64>) -> Option<Seq<char>>
    decreases pages.len(),
{
    if pages.len() == 0 {
        None
    } else {
        let r = memory_fault(max, pages.drop_last());
        if r is Some {
            r
        } else if pages.last() * 65536 > max {
            Some(
                "Module requires "@ + decimal((pages.last() * 65536) as nat)
                    + " bytes of memory, but limit is "@ + decimal(max),
            )
        } else {
            None
        }
    }
}

/// The first table whose minimum exceeds `max` elements.
pub open spec fn table_fault(max: nat, elements: Seq<u64>) -> Option<Seq<char>>
    decreases elements.len(),
{
    if elements.len() == 0 {
        None
    } else {
        let r = table_fault(max, elements.drop_last());
        if r is Some {
            r
        } else if elements.last() > max {
            Some(
                "Module requires "@ + decimal(elements.last() as nat) + " table elements, but limit is "@
                    + decimal(max),
            )
        } else {
            None
        }
    }
}

/// "Module requires <a><middle><b>".
fn requirement_message(a: u64, middle: &str, b: u64) -> (r: String)
    ensures
        r@ == "Module requires "@ + decimal(a as nat) + middle@ + decimal(b as nat),
{
    let mut v = chars_of("Module requires ");
    let ad = decimal_chars(a);
    push_all(&mut v, ad.as_slice());
    let mc = chars_of(middle);
    push_all(&mut v, mc.as_slice());
    let bd = decimal_chars(b);
    push_all(&mut v, bd.as_slice());
    string_from_chars(v.as_slice())
}

/// A place where modules run under resource limits.
pub struct Sandbox {
    limits: ResourceLimits,
}

impl Sandbox {
    /// The limits of the sandbox.
    pub closed spec fn spec_limits(&self) -> ResourceLimits {
        self.limits
    }

    /// A sandbox with the given limits.
    pub fn new(limits: ResourceLimits) -> (r: Self)
        ensures
            r.spec_limits() == limits,
    {
        Sandbox { limits }
    }

    /// A sandbox with the default limits.
    pub fn with_defaults() -> (r: Self)
        ensures
            limits_view(r.spec_limits()) == (
                134217728nat,
                30_000_000_000nat,
                10_000_000nat,
                1024nat,
                10_000nat,
            ),
    {
        Self::new(ResourceLimits::default())
    }

    /// A sandbox for untrusted code.
    pub fn conservative() -> (r: Self)
        ensures
            limits_view(r.spec_limits()) == (
                16777216nat,
                5_000_000_000nat,
                1_000_000nat,
                256nat,
                1000nat,
            ),
    {
        Self::new(ResourceLimits::conservative())
    }

    /// A sandbox for trusted code.
    pub fn permissive() -> (r: Self)
        ensures
            limits_view(r.spec_limits()) == (
                536870912nat,
                120_000_000_000nat,
                100_000_000nat,
                4096nat,
                100_000nat,
            ),
    {
        Self::new(ResourceLimits::permissive())
    }

    /// The limits of the sandbox.
    pub fn limits(&self) -> (r: &ResourceLimits)
        ensures
            *r == self.spec_limits(),
    {
        &self.limits
    }

    /// Checks a module's declared minimums against the limits: the minimum
    /// pages of each exported memory (64 KiB each) and the minimum elements
    /// of each exported table.
    pub fn check_requirements(&self, memory_pages: &[u64], table_elements: &[u64]) -> (r: Result<
        (),
        String,
    >)
        requires
            forall|i: int| 0 <= i < memory_pages@.len() ==> #[trigger] memory_pages@[i] * 65536 <= usize::MAX,
        ensures
            match r {
                Ok(_) => requirement_fault(self.spec_limits(), memory_pages@, table_elements@) is None,
                Err(m) => requirement_fault(self.spec_limits(), memory_pages@, table_elements@) == Some(m@),
            },
    {
        let max_mem = self.limits.max_memory_bytes;
        let mut i: usize = 0;
        while i < memory_pages.len()
            invariant
                0 <= i <= memory_pages@.len(),
                max_mem == self.limits.max_memory_bytes,
                forall|j: int| 0 <= j < memory_pages@.len() ==> #[trigger] memory_pages@[j] * 65536 <= usize::MAX,
                memory_fault(max_mem as nat, memory_pages@.take(i as int)) is None,
            decreases memory_pages@.len() - i,
        {
            let pages = memory_pages[i];
            proof {
                assert(memory_pages@.take(i + 1).drop_last() =~= memory_pages@.take(i as int));
                assert(memory_pages@.take(i + 1).last() == pages);
                assert(pages * 65536 <= usize::MAX);
            }
            let bytes: usize = (pages * WASM_PAGE_BYTES) as usize;
            if bytes > max_mem {
                proof {
                    lemma_memory_fault_prefix(max_mem as nat, memory_pages@, i + 1);
                }
                return Err(
                    requirement_message(bytes as u64, " bytes of memory, but limit is ", max_mem as u64),
                );
            }
            i = i + 1;
        }
        proof {
            assert(memory_pages@.take(memory_pages@.len() as int) =~= memory_pages@);
        }
        let max_tab = self.limits.max_table_elements;
        let mut k: usize = 0;
        while k < table_elements.len()
            invariant
                0 <= k <= table_elements@.len(),
                max_tab == self.limits.max_table_elements,
                memory_fault(self.limits.max_memory_bytes as nat, memory_pages@) is None,
                table_fault(max_tab as nat, table_elements@.take(k as int)) is None,
            decreases table_elements@.len() - k,
        {
            let n = table_elements[k];
            proof {
                assert(table_elements@.take(k + 1).drop_last() =~= table_elements@.take(k as int));
                assert(table_elements@.take(k + 1).last() == n);
            }
            if n > max_tab {
                proof {
                    lemma_table_fault_prefix(max_tab as nat, table_elements@, k + 1);
                }
                return Err(requirement_message(n, " table elements, but limit is ", max_tab));
            }
            k = k + 1;
        }
        proof {
            assert(table_elements@.take(table_elements@.len() as int) =~= table_elements@);
        }
        Ok(())
    }
}

proof fn lemma_memory_fault_prefix(max: nat, s: Seq<u64>, k: int)
    requires
        0 <= k <= s.len(),
        memory_fault(max, s.take(k)) is Some,
    ensures
        memory_fault(max, s) == memory_fault(max, s.take(k)),
    decreases s.len() - k,
{
    if k == s.len() {
        assert(s.take(k) =~= s);
    } else {
        assert(s.take(k + 1).drop_last() =~= s.take(k));
        lemma_memory_fault_prefix(max, s, k + 1);
    }
}

proof fn lemma_table_fault_prefix(max: nat, s: Seq<u64>, k: int)
    requires
        0 <= k <= s.len(),
        table_fault(max, s.take(k)) is Some,
    ensures
        table_fault(max, s) == table_fault(max, s.take(k)),
    decreases s.len() - k,
{
    if k == s.len() {
        assert(s.take(k) =~= s);
    } else {
        assert(s.take(k + 1).drop_last() =~= s.take(k));
        lemma_table_fault_prefix(max, s, k + 1);
    }
}

} // verus!
