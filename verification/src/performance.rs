//! Low-latency plumbing: CPU pinning, a pre-allocated order arena, and
//! latency statistics.

use vstd::prelude::*;

verus! {

/// Why pinning the current thread failed.
#[derive(Debug, Clone, Copy, PartialEq, Eq, Structural)]
pub enum PinningError {
    /// The requested index names no configured core.
    CoreOutOfRange,
    /// The operating system refused the pinning.
    PinFailed,
}

/// Pins critical threads to dedicated cores.
#[derive(Debug)]
pub struct CpuPinning {
    /// Whether a thread has been pinned successfully.
    enabled: bool,
    /// The cores reserved for pinning.
    cores: Vec<usize>,
}

impl CpuPinning {
    /// Whether some thread was pinned.
    pub closed spec fn spec_enabled(self) -> bool {
        self.enabled
    }

    /// The reserved cores.
    pub closed spec fn spec_cores(self) -> Seq<usize> {
        self.cores@
    }

    /// A pinning helper over the given cores; nothing is pinned yet.
    pub fn new(cores: Vec<usize>) -> (r: CpuPinning)
        ensures
            !r.spec_enabled(),
            r.spec_cores() == cores@,
    {
        CpuPinning { enabled: false, cores }
    }

    /// Pins the current thread to the core at `core_index`. On success
    /// the helper counts as enabled; whether the operating system obliges
    /// depends on the machine.
    pub fn pin_current_thread(&mut self, core_index: usize) -> (r: Result<(), PinningError>)
        ensures
            final(self).spec_cores() == old(self).spec_cores(),
            core_index >= old(self).spec_cores().len() ==> r == Err::<(), PinningError>(
                PinningError::CoreOutOfRange,
            ) && final(self).spec_enabled() == old(self).spec_enabled(),
            core_index < old(self).spec_cores().len() ==> match r {
                Ok(_) => final(self).spec_enabled(),
                Err(e) => e == PinningError::PinFailed && final(self).spec_enabled() == old(
                    self,
                ).spec_enabled(),
            },
    {
        if core_index >= self.cores.len() {
            return Err(PinningError::CoreOutOfRange);
        }
        let core_id = self.cores[core_index];
        if set_core_affinity(core_id) {
            self.enabled = true;
            Ok(())
        } else {
            Err(PinningError::PinFailed)
        }
    }

    /// True once a thread has been pinned.
    pub fn is_enabled(&self) -> (r: bool)
        ensures
            r == self.spec_enabled(),
    {
        self.enabled
    }
}

/// Relies on `core_affinity::set_for_current`: asks the operating system
/// to pin the current thread to the core; whether it succeeds depends on
/// the machine, so nothing is promised of the result.
#[verifier::external_body]
fn set_core_affinity(core_id: usize) -> bool {
    core_affinity::set_for_current(core_affinity::CoreId { id: core_id })
}

/// A pre-allocated slot pool for orders, so the hot path never allocates.
#[derive(Debug, Clone, Copy, PartialEq, Eq, Structural)]
pub struct OrderArena {
    capacity: usize,
}

impl OrderArena {
    /// The number of reserved slots.
    pub closed spec fn spec_capacity(self) -> usize {
        self.capacity
    }

    /// An arena with `capacity` slots.
    pub fn new(capacity: usize) -> (r: OrderArena)
        ensures
            r.spec_capacity() == capacity,
    {
        OrderArena { capacity }
    }

    /// The number of reserved slots.
    pub fn capacity(&self) -> (r: usize)
        ensures
            r == self.spec_capacity(),
    {
        self.capacity
    }
}

/// Switches for the latency-oriented machinery.
#[derive(Debug, PartialEq, Eq)]
pub struct PerformanceConfig {
    /// Pin critical threads to cores.
    pub cpu_pinning: bool,
    /// The cores to use; empty means all.
    pub cpu_cores: Vec<usize>,
    /// Prefer lock-free structures.
    pub lockfree: bool,
    /// Bytes to pre-allocate.
    pub preallocated_memory: usize,
    /// Use vectorized indicator kernels.
    pub simd: bool,
}

impl Clone for PerformanceConfig {
    /// A clone carries the same switches.
    fn clone(&self) -> (r: Self)
        ensures
            r.cpu_pinning == self.cpu_pinning,
            r.cpu_cores@ == self.cpu_cores@,
            r.lockfree == self.lockfree,
            r.preallocated_memory == self.preallocated_memory,
            r.simd == self.simd,
    {
        PerformanceConfig {
            cpu_pinning: self.cpu_pinning,
            cpu_cores: self.cpu_cores.clone(),
            lockfree: self.lockfree,
            preallocated_memory: self.preallocated_memory,
            simd: self.simd,
        }
    }
}

impl Default for PerformanceConfig {
    /// Pinning off, lock-free on, no pre-allocation, no vectorization.
    fn default() -> (r: PerformanceConfig)
        ensures
            !r.cpu_pinning,
            r.cpu_cores@.len() == 0,
            r.lockfree,
            r.preallocated_memory == 0,
            !r.simd,
    {
        PerformanceConfig {
            cpu_pinning: false,
            cpu_cores: Vec::new(),
            lockfree: true,
            preallocated_memory: 0,
            simd: false,
        }
    }
}

/// Latency statistics in nanoseconds.
#[derive(Debug, Clone, Copy, PartialEq, Eq, Structural)]
pub struct PerformanceStats {
    /// Mean signal-generation latency.
    pub avg_signal_latency_ns: u64,
    /// Mean order-creation latency.
    pub avg_order_latency_ns: u64,
    /// Mean cycle latency.
    pub avg_cycle_latency_ns: u64,
    /// Worst observed latency.
    pub peak_latency_ns: u64,
    /// Samples recorded.
    pub samples: u64,
}

impl Default for PerformanceStats {
    /// No samples yet.
    fn default() -> (r: PerformanceStats)
        ensures
            r.avg_signal_latency_ns == 0,
            r.avg_order_latency_ns == 0,
            r.avg_cycle_latency_ns == 0,
            r.peak_latency_ns == 0,
            r.samples == 0,
    {
        PerformanceStats {
            avg_signal_latency_ns: 0,
            avg_order_latency_ns: 0,
            avg_cycle_latency_ns: 0,
            peak_latency_ns: 0,
            samples: 0,
        }
    }
}

impl PerformanceStats {
    /// Folds one signal-generation sample into the running mean and the
    /// peak. Once the sample counter reaches its limit the statistics
    /// freeze.
    pub fn record_signal_latency(&mut self, latency_ns: u64)
        ensures
            old(self).samples == u64::MAX ==> *final(self) == *old(self),
            old(self).samples < u64::MAX ==> {
                &&& final(self).avg_signal_latency_ns == (old(self).avg_signal_latency_ns * old(
                    self,
                ).samples + latency_ns) / (old(self).samples + 1)
                &&& final(self).samples == old(self).samples + 1
                &&& final(self).peak_latency_ns == (if latency_ns > old(self).peak_latency_ns {
                    latency_ns as int
                } else {
                    old(self).peak_latency_ns as int
                })
                &&& final(self).avg_order_latency_ns == old(self).avg_order_latency_ns
                &&& final(self).avg_cycle_latency_ns == old(self).avg_cycle_latency_ns
            },
    {
        if self.samples == u64::MAX {
            return;
        }
        proof {
            assert(self.avg_signal_latency_ns * self.samples <= (u64::MAX as int) * (u64::MAX
                as int)) by (nonlinear_arith)
                requires
                    self.avg_signal_latency_ns <= u64::MAX,
                    self.samples <= u64::MAX,
            ;
            assert((self.avg_signal_latency_ns * self.samples + latency_ns) / (self.samples + 1)
                <= (if self.avg_signal_latency_ns > latency_ns {
                self.avg_signal_latency_ns as int
            } else {
                latency_ns as int
            })) by (nonlinear_arith)
                requires
                    0 <= self.avg_signal_latency_ns,
                    0 <= latency_ns,
                    0 <= self.samples,
            ;
        }
        let weighted: u128 = (self.avg_signal_latency_ns as u128) * (self.samples as u128)
            + latency_ns as u128;
        self.avg_signal_latency_ns = (weighted / ((self.samples + 1) as u128)) as u64;
        self.samples = self.samples + 1;
        if latency_ns > self.peak_latency_ns {
            self.peak_latency_ns = latency_ns;
        }
    }

    /// True exactly when the means sit within the targets: signals under
    /// a microsecond and orders under a hundred nanoseconds.
    pub fn meets_targets(&self) -> (r: bool)
        ensures
            r == (self.avg_signal_latency_ns < 1000 && self.avg_order_latency_ns < 100),
    {
        self.avg_signal_latency_ns < 1000 && self.avg_order_latency_ns < 100
    }
}

} // verus!
