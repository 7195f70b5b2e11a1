//! Benchmark results and reports.

use vstd::prelude::*;
use crate::{Backend, Operation};
use crate::stats::{
    sum_of, sum_sq_of, min_of, max_of, mean_x100_of, varnum_of, samples_bounded, samples_constant,
    lemma_extrema, lemma_sum_range, lemma_sum_sq_range, lemma_sum_sq_lower_bound,
    lemma_mean_bounds, lemma_constant_samples, isqrt_u128, MAX_SAMPLE_NS,
};
use crate::config::MAX_MEASUREMENT_ITERATIONS;
use vstd::arithmetic::mul::lemma_mul_upper_bound;
use vstd::arithmetic::div_mod::lemma_fundamental_div_mod;
use vstd::string::StringExecFns;

verus! {

/// Throughput in ten-thousandths of a giga-operation per second. The
/// mathematical throughput is `total_operations / min_seconds / 1e9`,
/// which reduces to `total_operations / min_ns`; it is defined as zero
/// when the minimum duration is zero. The stored value rounds
/// `10000 * total_operations / min_ns` to nearest, halves up.
pub open spec fn spec_gops_x10000(total_operations: int, min_ns: int) -> int {
    if min_ns == 0 {
        0
    } else {
        (20000 * total_operations + min_ns) / (2 * min_ns)
    }
}

/// Cycles per operation in ten-thousandths, for a clock of `clock_hz`:
/// `min_seconds * clock_hz / total_operations`, scaled by 10000 and
/// rounded to nearest, halves up.
pub open spec fn spec_cycles_x10000(min_ns: int, clock_hz: int, total_operations: int) -> int {
    (20000 * min_ns * clock_hz + 1_000_000_000 * total_operations) / (2_000_000_000
        * total_operations)
}

/// `std_x100` is the population standard deviation of `n` samples with
/// variance numerator `varnum` (`n^2 * variance`), in hundredths and
/// rounded down: equivalently, `std_x100 * n` is the floor square root of
/// `10000 * varnum`, divided by `n` rounding down. The two inequalities
/// pin `std_x100` uniquely.
pub open spec fn std_dev_ok(std_x100: int, n: int, varnum: int) -> bool {
    &&& (std_x100 * n) * (std_x100 * n) <= 10000 * varnum
    &&& 10000 * varnum < ((std_x100 + 1) * n) * ((std_x100 + 1) * n)
}

/// Result of a single benchmark run. Timing statistics are exact
/// fixed-point values: `_x100` fields are scaled by 100 (two decimal
/// places), `_x10000` fields by 10000 (four decimal places).
#[derive(Debug)]
pub struct BenchmarkResult {
    /// Backend display name.
    pub backend: String,
    /// Operation stable name.
    pub operation: String,
    /// Workgroup size used.
    pub workgroup_size: u32,
    /// Total threads executed per dispatch.
    pub total_threads: u64,
    /// Operations per thread.
    pub ops_per_thread: u32,
    /// Total operations executed per dispatch.
    pub total_operations: u64,
    /// Fastest dispatch, in nanoseconds.
    pub min_ns: u64,
    /// Slowest dispatch, in nanoseconds.
    pub max_ns: u64,
    /// Mean dispatch time, in hundredths of a nanosecond.
    pub mean_ns_x100: u64,
    /// Population standard deviation, in hundredths of a nanosecond.
    pub std_dev_ns_x100: u64,
    /// Throughput, in ten-thousandths of a giga-operation per second.
    pub gops_x10000: u128,
    /// Cycles per operation, in ten-thousandths; present only when an
    /// external clock frequency was supplied.
    pub cycles_per_op_x10000: Option<u128>,
}

impl BenchmarkResult {
    /// Internal consistency of a result's statistics.
    pub open spec fn wf(self) -> bool {
        &&& self.min_ns <= self.max_ns
        &&& 100 * self.min_ns <= self.mean_ns_x100 <= 100 * self.max_ns
        &&& self.total_operations == self.total_threads * self.ops_per_thread
        &&& self.min_ns == 0 ==> self.gops_x10000 == 0
    }

    /// Reduce raw nanosecond timings into one result. The sample sequence
    /// must be non-empty; the caps on sample size and count are what lets
    /// the reduction stay exact in 128-bit arithmetic.
    pub fn from_timings(
        backend: Backend,
        operation: Operation,
        workgroup_size: u32,
        total_threads: u64,
        ops_per_thread: u32,
        timings_ns: &Vec<u64>,
        clock_hz: Option<u64>,
    ) -> (r: BenchmarkResult)
        requires
            timings_ns@.len() >= 1,
            timings_ns@.len() <= MAX_MEASUREMENT_ITERATIONS,
            samples_bounded(timings_ns@, MAX_SAMPLE_NS),
            total_threads >= 1,
            ops_per_thread >= 1,
            total_threads * ops_per_thread <= u64::MAX,
        ensures
            r.backend@ == backend.spec_name(),
            r.operation@ == operation.spec_name(),
            r.workgroup_size == workgroup_size,
            r.total_threads == total_threads,
            r.ops_per_thread == ops_per_thread,
            r.total_operations == total_threads * ops_per_thread,
            r.min_ns == min_of(timings_ns@),
            r.max_ns == max_of(timings_ns@),
            r.mean_ns_x100 == mean_x100_of(timings_ns@),
            std_dev_ok(r.std_dev_ns_x100 as int, timings_ns@.len() as int, varnum_of(timings_ns@)),
            r.gops_x10000 == spec_gops_x10000(r.total_operations as int, r.min_ns as int),
            clock_hz is None ==> r.cycles_per_op_x10000 is None,
            clock_hz matches Some(hz) ==> r.cycles_per_op_x10000 == Some(
                spec_cycles_x10000(r.min_ns as int, hz as int, r.total_operations as int) as u128,
            ),
            r.wf(),
            samples_constant(timings_ns@, timings_ns@[0]) ==> r.min_ns == timings_ns@[0]
                && r.max_ns == timings_ns@[0] && r.mean_ns_x100 == 100 * timings_ns@[0]
                && r.std_dev_ns_x100 == 0,
    {
        let ghost t = timings_ns@;
        let n: usize = timings_ns.len();
        let mut minv: u64 = timings_ns[0];
        let mut maxv: u64 = timings_ns[0];
        let mut sum: u128 = timings_ns[0] as u128;
        proof {
            assert(t[0] <= MAX_SAMPLE_NS);
            lemma_mul_upper_bound(t[0] as int, MAX_SAMPLE_NS as int, t[0] as int, MAX_SAMPLE_NS as int);
        }
        let mut sumsq: u128 = (timings_ns[0] as u128) * (timings_ns[0] as u128);
        let mut i: usize = 1;
        proof {
            assert(t.take(1).len() == 1);
            assert(t.take(1)[0] == t[0]);
            assert(t.take(1).drop_last() =~= Seq::<u64>::empty());
            assert(t.take(1).last() == t[0]);
            assert(sum_of(Seq::<u64>::empty()) == 0);
            assert(sum_sq_of(Seq::<u64>::empty()) == 0);
            assert(sum_of(t.take(1)) == t[0]);
            assert(sum_sq_of(t.take(1)) == (t[0] as int) * (t[0] as int));
        }
        while i < n
            invariant
                1 <= i <= n,
                n == t.len(),
                n <= MAX_MEASUREMENT_ITERATIONS,
                t == timings_ns@,
                samples_bounded(t, MAX_SAMPLE_NS),
                minv == min_of(t.take(i as int)),
                maxv == max_of(t.take(i as int)),
                sum == sum_of(t.take(i as int)),
                sumsq == sum_sq_of(t.take(i as int)),
                sum <= (i as int) * (MAX_SAMPLE_NS as int),
                sumsq <= (i as int) * ((MAX_SAMPLE_NS as int) * (MAX_SAMPLE_NS as int)),
            decreases n - i,
        {
            let x = timings_ns[i];
            proof {
                let pre = t.take(i as int);
                let cur = t.take(i + 1 as int);
                assert(cur.drop_last() =~= pre);
                assert(cur.last() == t[i as int]);
                assert(cur.len() == i + 1 >= 2);
                assert(x <= MAX_SAMPLE_NS);
                lemma_mul_upper_bound(x as int, MAX_SAMPLE_NS as int, x as int, MAX_SAMPLE_NS as int);
                assert((i as int) * (MAX_SAMPLE_NS as int) + MAX_SAMPLE_NS == (i + 1 as int) * (
                MAX_SAMPLE_NS as int)) by (nonlinear_arith);
                assert((i as int) * ((MAX_SAMPLE_NS as int) * (MAX_SAMPLE_NS as int)) + (
                MAX_SAMPLE_NS as int) * (MAX_SAMPLE_NS as int) == (i + 1 as int) * ((
                MAX_SAMPLE_NS as int) * (MAX_SAMPLE_NS as int))) by (nonlinear_arith);
                assert((i + 1 as int) * ((MAX_SAMPLE_NS as int) * (MAX_SAMPLE_NS as int))
                    <= u128::MAX) by (nonlinear_arith)
                    requires
                        0 < i + 1 as int <= 100_000int + 1,
                        MAX_SAMPLE_NS == 1_000_000_000_000u64,
                ;
            }
            if x < minv {
                minv = x;
            }
            if x > maxv {
                maxv = x;
            }
            sum = sum + (x as u128);
            sumsq = sumsq + (x as u128) * (x as u128);
            i += 1;
        }
        proof {
            assert(t.take(n as int) =~= t);
        }
        proof {
            assert((n as int) * (MAX_SAMPLE_NS as int) <= (MAX_MEASUREMENT_ITERATIONS as int) * (
            MAX_SAMPLE_NS as int)) by (nonlinear_arith)
                requires
                    0 < n as int <= MAX_MEASUREMENT_ITERATIONS as int,
            ;
        }
        // exact mean in hundredths, rounded half up
        let mean_x100_wide: u128 = (200 * sum + (n as u128)) / (2 * (n as u128));
        proof {
            lemma_mean_bounds(t);
            lemma_extrema(t);
            let j = choose|j: int| 0 <= j < t.len() && t[j] == max_of(t);
            assert(max_of(t) <= MAX_SAMPLE_NS);
            assert(mean_x100_wide == mean_x100_of(t));
            assert(mean_x100_wide <= 100 * (MAX_SAMPLE_NS as int));
        }
        let mean_x100: u64 = mean_x100_wide as u64;
        // exact variance numerator: n * sum(t^2) - sum(t)^2
        proof {
            assert((n as int) * (sumsq as int) <= u128::MAX) by (nonlinear_arith)
                requires
                    0 <= sumsq as int <= (n as int) * ((MAX_SAMPLE_NS as int) * (
                    MAX_SAMPLE_NS as int)),
                    0 < n as int <= 100_000,
                    MAX_SAMPLE_NS == 1_000_000_000_000u64,
            ;
            assert((sum as int) * (sum as int) <= u128::MAX) by (nonlinear_arith)
                requires
                    0 <= sum as int <= (n as int) * (MAX_SAMPLE_NS as int),
                    0 < n as int <= 100_000,
                    MAX_SAMPLE_NS == 1_000_000_000_000u64,
            ;
        }
        let nsumsq: u128 = (n as u128) * sumsq;
        let sumsum: u128 = sum * sum;
        proof {
            lemma_sum_sq_lower_bound(t);
            lemma_sum_range(t, MAX_SAMPLE_NS);
            lemma_sum_sq_range(t, MAX_SAMPLE_NS);
            let m2 = (MAX_SAMPLE_NS as int) * (MAX_SAMPLE_NS as int);
            let nmax = MAX_MEASUREMENT_ITERATIONS as int;
            assert(sum * sum <= ((n as int) * (MAX_SAMPLE_NS as int)) * ((n as int) * (
            MAX_SAMPLE_NS as int))) by (nonlinear_arith)
                requires
                    0 <= sum <= (n as int) * (MAX_SAMPLE_NS as int),
            ;
            assert((n as int) * sum_sq_of(t) <= nmax * (nmax * m2)) by (nonlinear_arith)
                requires
                    0 <= sum_sq_of(t) <= (n as int) * m2,
                    0 < n as int <= nmax,
                    m2 >= 0,
            ;
            assert(nmax * (nmax * m2) == 10_000_000_000_000_000_000_000_000_000_000_000int)
                by (nonlinear_arith)
                requires
                    nmax == 100_000,
                    m2 == 1_000_000_000_000int * 1_000_000_000_000int,
            ;
        }
        let varnum: u128 = nsumsq - sumsum;
        proof {
            assert(varnum == varnum_of(t));
            assert(10000 * varnum <= 10000 * ((MAX_MEASUREMENT_ITERATIONS as int) * ((
            MAX_MEASUREMENT_ITERATIONS as int) * ((MAX_SAMPLE_NS as int) * (
            MAX_SAMPLE_NS as int))))) by (nonlinear_arith)
                requires
                    0 <= varnum as int <= (MAX_MEASUREMENT_ITERATIONS as int) * ((
                    MAX_MEASUREMENT_ITERATIONS as int) * ((MAX_SAMPLE_NS as int) * (
                    MAX_SAMPLE_NS as int))),
            ;
            assert(10000 * ((MAX_MEASUREMENT_ITERATIONS as int) * ((
            MAX_MEASUREMENT_ITERATIONS as int) * ((MAX_SAMPLE_NS as int) * (MAX_SAMPLE_NS as int))))
                <= u128::MAX) by (nonlinear_arith);
        }
        // population standard deviation in hundredths, rounded down:
        // floor(sqrt(10000 * varnum) / n)
        let root: u128 = isqrt_u128(10000 * varnum);
        let std_x100_wide: u128 = root / (n as u128);
        proof {
            let x = 10000 * (varnum as int);
            let s = std_x100_wide as int;
            let nn = n as int;
            lemma_fundamental_div_mod(root as int, nn);
            assert(s * nn <= root as int) by (nonlinear_arith)
                requires
                    root as int == nn * s + (root as int) % nn,
                    (root as int) % nn >= 0,
            ;
            assert((s * nn) * (s * nn) <= (root as int) * (root as int)) by (nonlinear_arith)
                requires
                    0 <= s * nn <= root as int,
            ;
            assert(root as int + 1 <= (s + 1) * nn) by (nonlinear_arith)
                requires
                    root as int == nn * s + (root as int) % nn,
                    (root as int) % nn < nn,
                    nn >= 1,
            ;
            assert(((root as int) + 1) * ((root as int) + 1) <= ((s + 1) * nn) * ((s + 1) * nn))
                by (nonlinear_arith)
                requires
                    0 <= (root as int) + 1 <= (s + 1) * nn,
            ;
            assert(std_dev_ok(s, nn, varnum_of(t)));
        }
        let std_x100: u64 = std_x100_wide as u64;
        let total_operations: u64 = total_threads * (ops_per_thread as u64);
        // throughput in ten-thousandths of a GOP/s, from the minimum
        let gops_x10000: u128 = if minv == 0 {
            0
        } else {
            (20000 * (total_operations as u128) + (minv as u128)) / (2 * (minv as u128))
        };
        // optional cycles per operation, from an external clock frequency
        let cycles_per_op_x10000: Option<u128> = match clock_hz {
            Option::None => Option::None,
            Option::Some(hz) => {
                proof {
                    lemma_extrema(t);
                    let j = choose|j: int| 0 <= j < t.len() && t[j] == min_of(t);
                    assert(minv <= MAX_SAMPLE_NS);
                    assert(20000 * (minv as int) * (hz as int) + 1_000_000_000 * (
                    total_operations as int) <= u128::MAX) by (nonlinear_arith)
                        requires
                            0 <= minv as int <= MAX_SAMPLE_NS as int,
                            MAX_SAMPLE_NS == 1_000_000_000_000u64,
                            0 <= hz as int <= u64::MAX as int,
                            0 <= total_operations as int <= u64::MAX as int,
                    ;
                    assert(total_operations as int >= 1) by (nonlinear_arith)
                        requires
                            total_operations as int == (total_threads as int) * (
                            ops_per_thread as int),
                            total_threads >= 1,
                            ops_per_thread >= 1,
                    ;
                }
                let num: u128 = 20000 * (minv as u128) * (hz as u128) + 1_000_000_000
                    * (total_operations as u128);
                let den: u128 = 2_000_000_000 * (total_operations as u128);
                Option::Some(num / den)
            },
        };
        proof {
            if samples_constant(t, t[0]) {
                lemma_constant_samples(t, t[0]);
                let s = std_x100 as int;
                let nn = n as int;
                assert((s * nn) * (s * nn) <= 0);
                assert(s == 0) by (nonlinear_arith)
                    requires
                        (s * nn) * (s * nn) <= 0,
                        nn >= 1,
                        s >= 0,
                ;
            }
            lemma_extrema(t);
            let jm = choose|j: int| 0 <= j < t.len() && t[j] == min_of(t);
            let jx = choose|j: int| 0 <= j < t.len() && t[j] == max_of(t);
            assert(min_of(t) <= max_of(t));
        }
        BenchmarkResult {
            backend: String::from_str(backend.name()),
            operation: String::from_str(operation.name()),
            workgroup_size,
            total_threads,
            ops_per_thread,
            total_operations,
            min_ns: minv,
            max_ns: maxv,
            mean_ns_x100: mean_x100,
            std_dev_ns_x100: std_x100,
            gops_x10000,
            cycles_per_op_x10000,
        }
    }
}

impl Clone for BenchmarkResult {
    /// An exact copy: every field of the clone equals the original's.
    fn clone(&self) -> (res: Self)
        ensures
            res == *self,
    {
        let res = BenchmarkResult {
            backend: self.backend.clone(),
            operation: self.operation.clone(),
            ..*self
        };
        res
    }
}

impl Clone for BenchmarkReport {
    /// A copy with the same labels, timestamp, and result sequence.
    fn clone(&self) -> (res: Self)
        ensures
            res.device_name == self.device_name,
            res.device_vendor == self.device_vendor,
            res.timestamp == self.timestamp,
            res.results@ == self.results@,
    {
        let mut results: Vec<BenchmarkResult> = Vec::new();
        let n = self.results.len();
        let mut i: usize = 0;
        while i < n
            invariant
                i <= n,
                n == self.results@.len(),
                results@ == self.results@.take(i as int),
            decreases n - i,
        {
            results.push(self.results[i].clone());
            proof {
                assert(self.results@.take(i + 1 as int) =~= self.results@.take(i as int).push(
                    self.results@[i as int],
                ));
            }
            i += 1;
        }
        proof {
            assert(self.results@.take(n as int) =~= self.results@);
        }
        BenchmarkReport {
            device_name: self.device_name.clone(),
            device_vendor: self.device_vendor.clone(),
            results,
            timestamp: self.timestamp.clone(),
        }
    }
}

/// The first result in `results` whose operation name is `name`.
pub open spec fn first_with_name(results: Seq<BenchmarkResult>, name: Seq<char>) -> Option<
    BenchmarkResult,
>
    decreases results.len(),
{
    if results.len() == 0 {
        Option::None
    } else if results[0].operation@ == name {
        Option::Some(results[0])
    } else {
        first_with_name(results.skip(1), name)
    }
}

/// The overhead of emulated over native wide addition, as a factor scaled
/// by 100: `round(100 * emulated_min / native_min)` over the first result
/// of each variant, defined only when both are present and the native
/// minimum is non-zero.
pub open spec fn spec_u64_overhead(results: Seq<BenchmarkResult>) -> Option<int> {
    let native = first_with_name(results, "u64_add_native"@);
    let emulated = first_with_name(results, "u64_add_emulated"@);
    if native is Some && emulated is Some && native->Some_0.min_ns > 0 {
        Option::Some(
            (200 * emulated->Some_0.min_ns + native->Some_0.min_ns) / (2
                * native->Some_0.min_ns as int),
        )
    } else {
        Option::None
    }
}

/// Collection of benchmark results for one device, in execution order.
#[derive(Debug)]
pub struct BenchmarkReport {
    /// Device name, as reported by the runner.
    pub device_name: String,
    /// Device vendor or backend label.
    pub device_vendor: String,
    /// Results in execution order, appended one per completed run.
    pub results: Vec<BenchmarkResult>,
    /// Creation time, in seconds since the Unix epoch.
    pub timestamp: String,
}

/// Relies on std::time::SystemTime::now and duration_since(UNIX_EPOCH):
/// the current time as whole seconds since the Unix epoch (zero if the
/// clock reads before the epoch). The value depends on the clock, so
/// nothing is promised of it.
#[verifier::external_body]
fn now_unix_secs() -> u64 {
    std::time::SystemTime::now()
        .duration_since(std::time::UNIX_EPOCH)
        .unwrap_or_default()
        .as_secs()
}

/// The current time as a decimal string of seconds since the Unix epoch.
pub fn chrono_lite_timestamp() -> (r: String)
    ensures
        exists|n: int| 0 <= n && r@ == crate::textfmt::dec_rep(n),
{
    let secs = now_unix_secs();
    let r = crate::textfmt::u64_to_string(secs);
    proof {
        assert(r@ == crate::textfmt::dec_rep(secs as int));
    }
    r
}

impl BenchmarkReport {
    /// A fresh report with no results, stamped with the current time.
    pub fn new(device_name: String, device_vendor: String) -> (r: Self)
        ensures
            r.device_name == device_name,
            r.device_vendor == device_vendor,
            r.results@ == Seq::<BenchmarkResult>::empty(),
            exists|n: int| 0 <= n && r.timestamp@ == crate::textfmt::dec_rep(n),
    {
        let r = BenchmarkReport {
            device_name,
            device_vendor,
            results: Vec::new(),
            timestamp: chrono_lite_timestamp(),
        };
        proof {
            assert(r.results@ =~= Seq::<BenchmarkResult>::empty());
        }
        r
    }

    /// Append one result; earlier results and the labels are unchanged.
    pub fn add_result(&mut self, result: BenchmarkResult)
        ensures
            final(self).results@ == old(self).results@.push(result),
            final(self).device_name == old(self).device_name,
            final(self).device_vendor == old(self).device_vendor,
            final(self).timestamp == old(self).timestamp,
    {
        self.results.push(result);
    }

    /// The emulated-over-native wide-addition overhead factor, scaled by
    /// 100, when both variants are present and the ratio is defined.
    pub fn u64_overhead(&self) -> (r: Option<u128>)
        ensures
            r is Some <==> spec_u64_overhead(self.results@) is Some,
            r matches Some(v) ==> spec_u64_overhead(self.results@) == Option::Some(v as int),
    {
        let native = self.find_result("u64_add_native");
        let emulated = self.find_result("u64_add_emulated");
        match (native, emulated) {
            (Option::Some(ni), Option::Some(ei)) => {
                let nat_min = self.results[ni].min_ns;
                let emu_min = self.results[ei].min_ns;
                if nat_min > 0 {
                    let v: u128 = (200 * (emu_min as u128) + (nat_min as u128)) / (2 * (
                    nat_min as u128));
                    Option::Some(v)
                } else {
                    Option::None
                }
            },
            _ => Option::None,
        }
    }

    /// The index of the first result whose operation name is `name`.
    pub fn find_result(&self, name: &str) -> (r: Option<usize>)
        ensures
            r is None ==> first_with_name(self.results@, name@) is None,
            r matches Some(i) ==> i < self.results@.len() && first_with_name(
                self.results@,
                name@,
            ) == Option::Some(self.results@[i as int]) && self.results@[i as int].operation@
                == name@,
    {
        let ghost rs = self.results@;
        let n = self.results.len();
        let mut i: usize = 0;
        proof {
            assert(rs.skip(0) =~= rs);
        }
        while i < n
            invariant
                i <= n,
                n == rs.len(),
                rs == self.results@,
                first_with_name(rs, name@) == first_with_name(rs.skip(i as int), name@),
            decreases n - i,
        {
            proof {
                assert(rs.skip(i as int)[0] == rs[i as int]);
                assert(rs.skip(i as int).skip(1) =~= rs.skip(i + 1 as int));
            }
            if crate::textfmt::str_eq(self.results[i].operation.as_str(), name) {
                return Option::Some(i);
            }
            i += 1;
        }
        proof {
            assert(rs.skip(n as int).len() == 0);
        }
        Option::None
    }
}

} // verus!
