//! Shared benchmark configuration and the per-operation calibration
//! transform.

use vstd::prelude::*;
use crate::{Backend, Operation};

verus! {

/// Most measurement iterations a single run may take: the statistics are
/// computed exactly in 128-bit integers, and this cap (together with the
/// per-sample cap) keeps every intermediate product in range.
pub const MAX_MEASUREMENT_ITERATIONS: u32 = 100_000;

/// Workgroup sizes offered by the interactive configuration.
pub const WORKGROUP_SIZES: [u32; 3] = [64, 128, 256];

/// Benchmark configuration shared across operations. All counts are
/// positive; `auto_calibrate` selects the per-operation iteration default.
#[derive(Debug, Clone, Copy, PartialEq, Eq, Structural)]
pub struct BenchmarkConfig {
    /// Operations per thread (used as given when `auto_calibrate` is off).
    pub ops_per_thread: u32,
    /// Threads per workgroup in a dispatch.
    pub workgroup_size: u32,
    /// Workgroups per dispatch.
    pub num_workgroups: u32,
    /// Untimed dispatches before measurement.
    pub warmup_iterations: u32,
    /// Timed dispatches per operation.
    pub measurement_iterations: u32,
    /// Seed for the deterministic input data.
    pub seed: u32,
    /// Replace `ops_per_thread` by the operation's calibrated default.
    pub auto_calibrate: bool,
}

impl BenchmarkConfig {
    /// The default configuration: a 64 x 1024 grid, 100 operations per
    /// thread, 3 warmup and 10 measurement iterations, auto-calibration on.
    pub open spec fn spec_default() -> BenchmarkConfig {
        BenchmarkConfig {
            ops_per_thread: 100,
            workgroup_size: 64,
            num_workgroups: 1024,
            warmup_iterations: 3,
            measurement_iterations: 10,
            seed: 0x12345678,
            auto_calibrate: true,
        }
    }

    /// Total threads in one dispatch grid.
    pub open spec fn spec_total_threads(self) -> int {
        self.workgroup_size * self.num_workgroups
    }

    /// Total operations executed by one dispatch.
    pub open spec fn spec_total_operations(self) -> int {
        self.spec_total_threads() * self.ops_per_thread
    }

    /// A usable configuration: every count positive, and small enough that
    /// the exact statistics fit machine integers. The grid bound covers
    /// every calibrated default (at most 1000 operations per thread).
    pub open spec fn wf(self) -> bool {
        &&& self.ops_per_thread >= 1
        &&& self.workgroup_size >= 1
        &&& self.num_workgroups >= 1
        &&& self.warmup_iterations >= 1
        &&& self.measurement_iterations >= 1
        &&& self.seed >= 1
        &&& self.measurement_iterations <= MAX_MEASUREMENT_ITERATIONS
        &&& self.spec_total_operations() <= u64::MAX
        &&& self.spec_total_threads() * 1000 <= u64::MAX
    }

    /// Runtime check for `wf`, so unverified callers can test it before
    /// calling the functions that require it.
    pub fn is_wf(&self) -> (r: bool)
        ensures
            r == self.wf(),
    {
        let a: u128 = self.workgroup_size as u128;
        let b: u128 = self.num_workgroups as u128;
        let c: u128 = self.ops_per_thread as u128;
        proof {
            assert(a * b <= 0xFFFF_FFFFu128 * 0xFFFF_FFFFu128) by (nonlinear_arith)
                requires
                    a <= 0xFFFF_FFFFu128,
                    b <= 0xFFFF_FFFFu128,
            ;
            assert((a * b) * c <= 0xFFFF_FFFF_FFFF_FFFFu128 * 0xFFFF_FFFFu128) by (nonlinear_arith)
                requires
                    a * b <= 0xFFFF_FFFF_FFFF_FFFFu128,
                    c <= 0xFFFF_FFFFu128,
            ;
            assert((a * b) * 1000 <= 0xFFFF_FFFF_FFFF_FFFFu128 * 1000) by (nonlinear_arith)
                requires
                    a * b <= 0xFFFF_FFFF_FFFF_FFFFu128,
            ;
        }
        let tt: u128 = a * b;
        self.ops_per_thread >= 1 && self.workgroup_size >= 1 && self.num_workgroups >= 1
            && self.warmup_iterations >= 1 && self.measurement_iterations >= 1 && self.seed >= 1
            && self.measurement_iterations <= MAX_MEASUREMENT_ITERATIONS
            && tt * c <= u64::MAX as u128
            && tt * 1000 <= u64::MAX as u128
    }

    pub fn with_workgroup_size(self, size: u32) -> (r: Self)
        ensures
            r == (BenchmarkConfig { workgroup_size: size, ..self }),
    {
        BenchmarkConfig { workgroup_size: size, ..self }
    }

    pub fn with_ops_per_thread(self, ops: u32) -> (r: Self)
        ensures
            r == (BenchmarkConfig { ops_per_thread: ops, ..self }),
    {
        BenchmarkConfig { ops_per_thread: ops, ..self }
    }

    pub fn with_iterations(self, iterations: u32) -> (r: Self)
        ensures
            r == (BenchmarkConfig { measurement_iterations: iterations, ..self }),
    {
        BenchmarkConfig { measurement_iterations: iterations, ..self }
    }

    pub fn with_auto_calibrate(self, enabled: bool) -> (r: Self)
        ensures
            r == (BenchmarkConfig { auto_calibrate: enabled, ..self }),
    {
        BenchmarkConfig { auto_calibrate: enabled, ..self }
    }

    /// The effective configuration for `op`: a copy of `self` whose
    /// `ops_per_thread` is replaced by the operation's calibrated default
    /// when `auto_calibrate` is set, and `self` unchanged otherwise.
    pub open spec fn spec_effective(self, op: Operation) -> BenchmarkConfig {
        if self.auto_calibrate {
            BenchmarkConfig { ops_per_thread: op.spec_calibrated_ops_per_thread(), ..self }
        } else {
            self
        }
    }

    pub fn for_operation(&self, op: Operation) -> (r: Self)
        ensures
            r == self.spec_effective(op),
    {
        if self.auto_calibrate {
            BenchmarkConfig { ops_per_thread: op.calibrated_ops_per_thread(), ..*self }
        } else {
            *self
        }
    }

    pub fn total_threads(&self) -> (r: u64)
        ensures
            r == self.spec_total_threads(),
    {
        proof {
            assert(self.workgroup_size * self.num_workgroups <= 0xFFFF_FFFFu64 * 0xFFFF_FFFFu64)
                by (nonlinear_arith)
                requires
                    self.workgroup_size <= 0xFFFF_FFFFu64,
                    self.num_workgroups <= 0xFFFF_FFFFu64,
            ;
        }
        (self.workgroup_size as u64) * (self.num_workgroups as u64)
    }

    pub fn total_operations(&self) -> (r: u64)
        requires
            self.spec_total_operations() <= u64::MAX,
        ensures
            r == self.spec_total_operations(),
    {
        self.total_threads() * (self.ops_per_thread as u64)
    }
}

impl Default for BenchmarkConfig {
    fn default() -> (r: Self)
        ensures
            r == BenchmarkConfig::spec_default(),
            r.wf(),
    {
        BenchmarkConfig {
            ops_per_thread: 100,
            workgroup_size: 64,
            num_workgroups: 1024,
            warmup_iterations: 3,
            measurement_iterations: 10,
            seed: 0x12345678,
            auto_calibrate: true,
        }
    }
}

/// Calibration is idempotent: deriving the effective configuration from an
/// already-effective configuration changes nothing.
pub proof fn lemma_effective_config_idempotent(cfg: BenchmarkConfig, op: Operation)
    ensures
        cfg.spec_effective(op).spec_effective(op) == cfg.spec_effective(op),
{
}

/// The calibration transform keeps a configuration usable: it only ever
/// replaces `ops_per_thread` by a calibrated default between 1 and 1000.
pub proof fn lemma_effective_config_wf(cfg: BenchmarkConfig, op: Operation)
    requires
        cfg.wf(),
    ensures
        cfg.spec_effective(op).wf(),
{
    let e = cfg.spec_effective(op);
    assert(1 <= op.spec_calibrated_ops_per_thread() <= 1000);
    assert(e.spec_total_threads() * e.ops_per_thread <= cfg.spec_total_threads() * 1000 || !cfg.auto_calibrate)
        by (nonlinear_arith)
        requires
            e.ops_per_thread <= 1000 || !cfg.auto_calibrate,
            e.spec_total_threads() == cfg.spec_total_threads(),
            cfg.spec_total_threads() >= 0,
    ;
}

/// A benchmark run specification: one backend, one operation, one
/// configuration.
#[derive(Debug, Clone, Copy)]
pub struct BenchmarkRun {
    pub backend: Backend,
    pub operation: Operation,
    pub config: BenchmarkConfig,
}

impl BenchmarkRun {
    pub fn new(backend: Backend, operation: Operation) -> (r: Self)
        ensures
            r.backend == backend,
            r.operation == operation,
            r.config == BenchmarkConfig::spec_default(),
    {
        BenchmarkRun { backend, operation, config: BenchmarkConfig::default() }
    }

    pub fn with_config(self, config: BenchmarkConfig) -> (r: Self)
        ensures
            r == (BenchmarkRun { config, ..self }),
    {
        BenchmarkRun { config, ..self }
    }
}

} // verus!
