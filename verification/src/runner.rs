//! The backend-agnostic measurement protocol: warmup-then-measure over a
//! dispatching collaborator, reduced to one result.

use vstd::prelude::*;
use crate::{Backend, BenchmarkError, Operation};
use crate::config::BenchmarkConfig;
use crate::results::BenchmarkResult;
use crate::stats::{samples_bounded, MAX_SAMPLE_NS};
use vstd::string::StringExecFns;

verus! {

/// A timed-dispatch collaborator: one call submits one kernel dispatch
/// over the full grid, blocks until the backend confirms completion, and
/// reports the elapsed wall-clock nanoseconds. Implementations cap the
/// reported time at `MAX_SAMPLE_NS` so the exact statistics stay in
/// range.
pub trait Dispatcher {
    fn dispatch_timed(&mut self) -> (r: Result<u64, BenchmarkError>)
        ensures
            r matches Ok(ns) ==> ns <= MAX_SAMPLE_NS,
    ;
}

/// Drive the warmup-then-measure protocol: exactly `warmup_iterations`
/// untimed dispatches whose timings are discarded, then exactly
/// `measurement_iterations` timed dispatches collected in order. Any
/// dispatch failure aborts immediately and discards all partial samples.
pub fn run_measurement<D: Dispatcher>(
    dispatcher: &mut D,
    warmup_iterations: u32,
    measurement_iterations: u32,
) -> (r: Result<Vec<u64>, BenchmarkError>)
    ensures
        r matches Ok(v) ==> v@.len() == measurement_iterations && samples_bounded(
            v@,
            MAX_SAMPLE_NS,
        ),
{
    let mut w: u32 = 0;
    while w < warmup_iterations
        invariant
            w <= warmup_iterations,
        decreases warmup_iterations - w,
    {
        match dispatcher.dispatch_timed() {
            Result::Ok(_) => {},
            Result::Err(e) => {
                return Result::Err(e);
            },
        }
        w += 1;
    }
    let mut samples: Vec<u64> = Vec::new();
    let mut i: u32 = 0;
    while i < measurement_iterations
        invariant
            i <= measurement_iterations,
            samples@.len() == i,
            samples_bounded(samples@, MAX_SAMPLE_NS),
        decreases measurement_iterations - i,
    {
        match dispatcher.dispatch_timed() {
            Result::Ok(ns) => {
                samples.push(ns);
            },
            Result::Err(e) => {
                return Result::Err(e);
            },
        }
        i += 1;
    }
    Result::Ok(samples)
}

/// Execute the full measurement protocol for one operation under an
/// already-effective configuration, and reduce the samples into one
/// complete result; fail atomically on any dispatch error.
pub fn measure_operation<D: Dispatcher>(
    dispatcher: &mut D,
    backend: Backend,
    operation: Operation,
    config: &BenchmarkConfig,
    clock_hz: Option<u64>,
) -> (r: Result<BenchmarkResult, BenchmarkError>)
    requires
        config.wf(),
    ensures
        r matches Ok(res) ==> {
            &&& res.backend@ == backend.spec_name()
            &&& res.operation@ == operation.spec_name()
            &&& res.workgroup_size == config.workgroup_size
            &&& res.total_threads == config.spec_total_threads()
            &&& res.ops_per_thread == config.ops_per_thread
            &&& res.total_operations == config.spec_total_operations()
            &&& res.wf()
        },
{
    let samples = match run_measurement(
        dispatcher,
        config.warmup_iterations,
        config.measurement_iterations,
    ) {
        Result::Ok(v) => v,
        Result::Err(e) => {
            return Result::Err(e);
        },
    };
    proof {
        assert(config.spec_total_threads() >= 1) by (nonlinear_arith)
            requires
                config.workgroup_size >= 1,
                config.num_workgroups >= 1,
                config.spec_total_threads() == config.workgroup_size * config.num_workgroups,
        ;
    }
    let total_threads = config.total_threads();
    let result = BenchmarkResult::from_timings(
        backend,
        operation,
        config.workgroup_size,
        total_threads,
        config.ops_per_thread,
        &samples,
        clock_hz,
    );
    Result::Ok(result)
}

/// A dispatcher whose every dispatch takes the same wall-clock time:
/// backend-free stand-in for measurement-protocol runs.
pub struct ConstantDispatcher {
    /// The constant duration reported for each dispatch, in nanoseconds.
    pub sample_ns: u64,
}

impl ConstantDispatcher {
    pub fn new(sample_ns: u64) -> (r: Self)
        requires
            sample_ns <= MAX_SAMPLE_NS,
        ensures
            r.sample_ns == sample_ns,
    {
        ConstantDispatcher { sample_ns }
    }
}

impl Dispatcher for ConstantDispatcher {
    fn dispatch_timed(&mut self) -> (r: Result<u64, BenchmarkError>) {
        if self.sample_ns <= MAX_SAMPLE_NS {
            Result::Ok(self.sample_ns)
        } else {
            Result::Err(
                BenchmarkError::Execution(String::from_str("constant sample out of range")),
            )
        }
    }
}

/// The word at `index` of the deterministic input data:
/// `(seed + index) * 0x9E3779B9` in wrapping 32-bit arithmetic, chosen
/// for cross-backend reproducibility given identical seeds.
pub open spec fn spec_input_word(seed: u32, index: int) -> int {
    (((seed + index % 0x1_0000_0000) % 0x1_0000_0000) * 0x9E37_79B9) % 0x1_0000_0000
}

/// Deterministic pseudo-random input data of `count` words from `seed`.
pub fn input_data(seed: u32, count: usize) -> (v: Vec<u32>)
    ensures
        v@.len() == count,
        forall|i: int| 0 <= i < count ==> v@[i] == spec_input_word(seed, i),
{
    let mut v: Vec<u32> = Vec::new();
    let mut i: usize = 0;
    while i < count
        invariant
            i <= count,
            v@.len() == i,
            forall|j: int| 0 <= j < i ==> v@[j] == spec_input_word(seed, j),
        decreases count - i,
    {
        let idx: u64 = (i as u64) % 0x1_0000_0000;
        let base: u64 = ((seed as u64) + idx) % 0x1_0000_0000;
        proof {
            assert(base * 0x9E37_79B9u64 <= 0xFFFF_FFFFu64 * 0x9E37_79B9u64) by (nonlinear_arith)
                requires
                    base <= 0xFFFF_FFFFu64,
            ;
        }
        let word: u64 = (base * 0x9E37_79B9) % 0x1_0000_0000;
        v.push(word as u32);
        i += 1;
    }
    v
}

/// The kernel parameter block, as the 32-bit words every backend's
/// kernels read: the per-thread iteration count, the seed, and two
/// padding words.
pub fn bench_params_words(config: &BenchmarkConfig) -> (v: Vec<u32>)
    ensures
        v@ == seq![config.ops_per_thread, config.seed, 0u32, 0u32],
{
    let mut v: Vec<u32> = Vec::new();
    v.push(config.ops_per_thread);
    v.push(config.seed);
    v.push(0);
    v.push(0);
    proof {
        assert(v@ =~= seq![config.ops_per_thread, config.seed, 0u32, 0u32]);
    }
    v
}

/// The kernel entry-point identifier for an operation: a total, pure
/// name mapping shared by every backend's program.
pub open spec fn spec_entry_point(op: Operation) -> Seq<char> {
    match op {
        Operation::U32Add => "bench_u32_add"@,
        Operation::U64AddNative => "bench_u64_add"@,
        Operation::U64AddEmulated => "bench_u64_add"@,
        Operation::FieldMul => "bench_field_mul"@,
        Operation::FieldAdd => "bench_field_add"@,
        Operation::MersenneFieldAdd => "bench_mersenne_field_add"@,
        Operation::MersenneFieldMul => "bench_mersenne_field_mul"@,
    }
}

pub fn operation_to_entry_point(operation: Operation) -> (r: &'static str)
    ensures
        r@ == spec_entry_point(operation),
{
    match operation {
        Operation::U32Add => "bench_u32_add",
        Operation::U64AddNative => "bench_u64_add",
        Operation::U64AddEmulated => "bench_u64_add",
        Operation::FieldMul => "bench_field_mul",
        Operation::FieldAdd => "bench_field_add",
        Operation::MersenneFieldAdd => "bench_mersenne_field_add",
        Operation::MersenneFieldMul => "bench_mersenne_field_mul",
    }
}

} // verus!
