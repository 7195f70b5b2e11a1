//! Session orchestration: run a suite of operations through a runner,
//! recording failures without aborting the session, and the pure
//! decision logic behind backend and operation selection.

use vstd::prelude::*;
use crate::{Backend, BenchmarkError, Operation};
use crate::config::BenchmarkConfig;
use crate::config::lemma_effective_config_wf;
use crate::results::{BenchmarkResult, BenchmarkReport};
use crate::runner::{Dispatcher, ConstantDispatcher, measure_operation};
use crate::stats::MAX_SAMPLE_NS;
use vstd::string::StringExecFns;

verus! {

/// A per-backend benchmark runner: the uniform interface behind which
/// backend-specific device, pipeline and buffer handling stands. A
/// successful run returns a complete result for exactly the requested
/// operation under the given configuration; it never returns a partial
/// or zeroed result.
pub trait Runner {
    /// The display name of the device this runner drives.
    fn device_name(&self) -> String;

    /// Execute the full measurement protocol for one operation, or fail
    /// atomically.
    fn run_benchmark(&mut self, operation: Operation, config: &BenchmarkConfig) -> (r: Result<
        BenchmarkResult,
        BenchmarkError,
    >)
        requires
            config.wf(),
        ensures
            r matches Ok(res) ==> {
                &&& res.operation@ == operation.spec_name()
                &&& res.workgroup_size == config.workgroup_size
                &&& res.total_threads == config.spec_total_threads()
                &&& res.ops_per_thread == config.ops_per_thread
                &&& res.total_operations == config.spec_total_operations()
                &&& res.wf()
            },
    ;
}

/// The session record of a suite: the results appended to the report and
/// the recorded failures interleave, in order, to exactly the requested
/// operations; each appended result is the complete, well-formed result
/// of its operation under that operation's effective configuration.
pub open spec fn session_ok(
    ops: Seq<Operation>,
    appended: Seq<BenchmarkResult>,
    failures: Seq<(Operation, BenchmarkError)>,
    config: BenchmarkConfig,
) -> bool
    decreases ops.len(),
{
    if ops.len() == 0 {
        appended.len() == 0 && failures.len() == 0
    } else {
        let op = ops.last();
        let eff = config.spec_effective(op);
        ||| (appended.len() > 0 && appended.last().operation@ == op.spec_name()
            && appended.last().wf() && appended.last().workgroup_size == eff.workgroup_size
            && appended.last().total_threads == eff.spec_total_threads() && appended.last()
            .ops_per_thread == eff.ops_per_thread && appended.last().total_operations
            == eff.spec_total_operations() && session_ok(
            ops.drop_last(),
            appended.drop_last(),
            failures,
            config,
        ))
        ||| (failures.len() > 0 && failures.last().0 == op && session_ok(
            ops.drop_last(),
            appended,
            failures.drop_last(),
            config,
        ))
    }
}

/// Each requested operation contributes exactly one session entry: a
/// result or a failure.
pub proof fn lemma_session_counts(
    ops: Seq<Operation>,
    appended: Seq<BenchmarkResult>,
    failures: Seq<(Operation, BenchmarkError)>,
    config: BenchmarkConfig,
)
    requires
        session_ok(ops, appended, failures, config),
    ensures
        appended.len() + failures.len() == ops.len(),
    decreases ops.len(),
{
    if ops.len() > 0 {
        if appended.len() > 0 && appended.last().operation@ == ops.last().spec_name()
            && session_ok(ops.drop_last(), appended.drop_last(), failures, config) {
            lemma_session_counts(ops.drop_last(), appended.drop_last(), failures, config);
        } else {
            lemma_session_counts(ops.drop_last(), appended, failures.drop_last(), config);
        }
    }
}

/// Run every requested operation through the runner under its effective
/// configuration, in order. A failed operation is recorded and skipped
/// — it contributes nothing to the report — and the session continues;
/// successful results are appended to the report in execution order.
pub fn run_session<R: Runner>(
    runner: &mut R,
    ops: &Vec<Operation>,
    config: &BenchmarkConfig,
    report: &mut BenchmarkReport,
) -> (failures: Vec<(Operation, BenchmarkError)>)
    requires
        config.wf(),
    ensures
        final(report).device_name == old(report).device_name,
        final(report).device_vendor == old(report).device_vendor,
        final(report).timestamp == old(report).timestamp,
        final(report).results@.len() >= old(report).results@.len(),
        final(report).results@.take(old(report).results@.len() as int) == old(report).results@,
        session_ok(
            ops@,
            final(report).results@.skip(old(report).results@.len() as int),
            failures@,
            *config,
        ),
        final(report).results@.len() + failures@.len() == old(report).results@.len() + ops@.len(),
{
    let ghost base = report.results@;
    let mut failures: Vec<(Operation, BenchmarkError)> = Vec::new();
    let n = ops.len();
    let mut k: usize = 0;
    proof {
        assert(ops@.take(0) =~= Seq::<Operation>::empty());
        assert(report.results@.skip(base.len() as int) =~= Seq::<BenchmarkResult>::empty());
        assert(report.results@.take(base.len() as int) =~= base);
    }
    while k < n
        invariant
            k <= n,
            n == ops@.len(),
            config.wf(),
            report.device_name == old(report).device_name,
            report.device_vendor == old(report).device_vendor,
            report.timestamp == old(report).timestamp,
            base == old(report).results@,
            report.results@.len() >= base.len(),
            report.results@.take(base.len() as int) == base,
            session_ok(
                ops@.take(k as int),
                report.results@.skip(base.len() as int),
                failures@,
                *config,
            ),
        decreases n - k,
    {
        let op = ops[k];
        let op_config = config.for_operation(op);
        proof {
            lemma_effective_config_wf(*config, op);
            assert(ops@.take(k + 1 as int).drop_last() =~= ops@.take(k as int));
            assert(ops@.take(k + 1 as int).last() == ops@[k as int]);
        }
        match runner.run_benchmark(op, &op_config) {
            Result::Ok(result) => {
                let ghost appended_pre = report.results@.skip(base.len() as int);
                report.add_result(result);
                proof {
                    assert(report.results@.skip(base.len() as int) =~= appended_pre.push(result));
                    assert(report.results@.skip(base.len() as int).drop_last() =~= appended_pre);
                    assert(report.results@.take(base.len() as int) =~= base);
                }
            },
            Result::Err(e) => {
                let ghost failures_pre = failures@;
                failures.push((op, e));
                proof {
                    assert(failures@.drop_last() =~= failures_pre);
                }
            },
        }
        k += 1;
    }
    proof {
        assert(ops@.take(n as int) =~= ops@);
        lemma_session_counts(
            ops@,
            report.results@.skip(base.len() as int),
            failures@,
            *config,
        );
    }
    failures
}

/// A scripted runner: a fixed outcome per operation, each successful
/// operation measured through the real protocol with a constant-time
/// dispatcher. Operations without an entry fail as a missing kernel.
pub struct ScriptedRunner {
    /// The backend this runner claims to drive.
    pub backend: Backend,
    /// The device name this runner reports.
    pub device: String,
    /// Outcome per operation: a constant per-dispatch duration in
    /// nanoseconds, or `None` for an execution failure.
    pub entries: Vec<(Operation, Option<u64>)>,
}

impl ScriptedRunner {
    pub fn new(backend: Backend, device: String) -> (r: Self)
        ensures
            r.backend == backend,
            r.device == device,
            r.entries@ == Seq::<(Operation, Option<u64>)>::empty(),
    {
        let r = ScriptedRunner { backend, device, entries: Vec::new() };
        proof {
            assert(r.entries@ =~= Seq::<(Operation, Option<u64>)>::empty());
        }
        r
    }

    /// Add one scripted outcome.
    pub fn with_entry(self, operation: Operation, outcome: Option<u64>) -> (r: Self)
        ensures
            r.backend == self.backend,
            r.device == self.device,
            r.entries@ == self.entries@.push((operation, outcome)),
    {
        let mut entries = self.entries;
        entries.push((operation, outcome));
        ScriptedRunner { backend: self.backend, device: self.device, entries }
    }

    /// The scripted outcome for `operation`, if one was given.
    fn lookup(&self, operation: Operation) -> (r: Option<Option<u64>>) {
        let n = self.entries.len();
        let mut i: usize = 0;
        while i < n
            invariant
                i <= n,
                n == self.entries@.len(),
            decreases n - i,
        {
            let (op, outcome) = self.entries[i];
            if op == operation {
                return Option::Some(outcome);
            }
            i += 1;
        }
        Option::None
    }
}

impl Runner for ScriptedRunner {
    fn device_name(&self) -> String {
        self.device.clone()
    }

    fn run_benchmark(&mut self, operation: Operation, config: &BenchmarkConfig) -> (r: Result<
        BenchmarkResult,
        BenchmarkError,
    >) {
        match self.lookup(operation) {
            Option::None => Result::Err(
                BenchmarkError::ShaderCompilation(
                    String::from_str("no kernel for operation"),
                ),
            ),
            Option::Some(Option::None) => Result::Err(
                BenchmarkError::Execution(String::from_str("scripted failure")),
            ),
            Option::Some(Option::Some(sample_ns)) => {
                if sample_ns <= MAX_SAMPLE_NS {
                    let mut dispatcher = ConstantDispatcher::new(sample_ns);
                    measure_operation(&mut dispatcher, self.backend, operation, config, Option::None)
                } else {
                    Result::Err(
                        BenchmarkError::Execution(
                            String::from_str("scripted sample out of range"),
                        ),
                    )
                }
            },
        }
    }
}

} // verus!
