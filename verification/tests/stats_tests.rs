use field_ops_benchmarks::{Backend, Operation};
use field_ops_benchmarks::results::BenchmarkResult;

fn reduce(timings: Vec<u64>, clock_hz: Option<u64>) -> BenchmarkResult {
    BenchmarkResult::from_timings(
        Backend::WebGPU,
        Operation::U32Add,
        64,
        65536,
        100,
        &timings,
        clock_hz,
    )
}

#[test]
fn constant_samples_have_zero_spread() {
    let r = reduce(vec![5_000, 5_000, 5_000], None);
    assert_eq!(r.min_ns, 5_000);
    assert_eq!(r.max_ns, 5_000);
    assert_eq!(r.mean_ns_x100, 500_000);
    assert_eq!(r.std_dev_ns_x100, 0);
}

#[test]
fn extrema_and_mean_of_mixed_samples() {
    let r = reduce(vec![1, 2, 3], None);
    assert_eq!(r.min_ns, 1);
    assert_eq!(r.max_ns, 3);
    // mean is exactly 2ns
    assert_eq!(r.mean_ns_x100, 200);
    // population variance is 2/3, standard deviation 0.8164..., kept to
    // two decimal places rounded down
    assert_eq!(r.std_dev_ns_x100, 81);
    // min <= mean <= max at the stored scale
    assert!(100 * r.min_ns <= r.mean_ns_x100);
    assert!(r.mean_ns_x100 <= 100 * r.max_ns);
}

#[test]
fn mean_rounds_to_nearest_hundredth() {
    // mean of 1 and 2 is 1.5ns: 150 hundredths exactly
    let r = reduce(vec![1, 2], None);
    assert_eq!(r.mean_ns_x100, 150);
    // mean of [1, 1, 2] is 1.333...: rounds to 133
    let r = reduce(vec![1, 1, 2], None);
    assert_eq!(r.mean_ns_x100, 133);
    // mean of [1, 2, 2] is 1.666...: rounds to 167
    let r = reduce(vec![1, 2, 2], None);
    assert_eq!(r.mean_ns_x100, 167);
}

#[test]
fn throughput_follows_exact_formula() {
    // total_operations = 65536 * 100 = 6_553_600; min = 1_000_000 ns,
    // so GOP/s = 6_553_600 / 1_000_000 ns = 6.5536
    let r = reduce(vec![1_000_000, 2_000_000], None);
    assert_eq!(r.total_operations, 6_553_600);
    assert_eq!(r.gops_x10000, 65_536);
}

#[test]
fn throughput_is_zero_when_minimum_is_zero() {
    let r = reduce(vec![0, 1_000_000], None);
    assert_eq!(r.min_ns, 0);
    assert_eq!(r.gops_x10000, 0);
}

#[test]
fn cycles_per_op_requires_a_clock() {
    let r = reduce(vec![1_000_000], None);
    assert!(r.cycles_per_op_x10000.is_none());
    // 1.5 GHz: cycles/op = 1ms * 1.5e9 Hz / 6_553_600 ops = 0.22888...,
    // kept to four decimal places rounded to nearest
    let r = reduce(vec![1_000_000], Some(1_500_000_000));
    assert_eq!(r.cycles_per_op_x10000, Some(2_289));
}

#[test]
fn result_carries_run_identity() {
    let r = reduce(vec![10], None);
    assert_eq!(r.backend, "WebGPU");
    assert_eq!(r.operation, "u32_add");
    assert_eq!(r.workgroup_size, 64);
    assert_eq!(r.total_threads, 65536);
    assert_eq!(r.ops_per_thread, 100);
}

#[test]
fn single_sample_statistics() {
    let r = reduce(vec![42], None);
    assert_eq!(r.min_ns, 42);
    assert_eq!(r.max_ns, 42);
    assert_eq!(r.mean_ns_x100, 4200);
    assert_eq!(r.std_dev_ns_x100, 0);
}

#[test]
fn largest_accepted_samples() {
    // the documented per-sample cap: 1000 seconds in nanoseconds
    let r = reduce(vec![1_000_000_000_000, 1_000_000_000_000], None);
    assert_eq!(r.min_ns, 1_000_000_000_000);
    assert_eq!(r.mean_ns_x100, 100_000_000_000_000);
    assert_eq!(r.std_dev_ns_x100, 0);
}

#[test]
fn result_clone_is_exact() {
    let r = reduce(vec![1, 2, 3], Some(1_000_000_000));
    let c = r.clone();
    assert_eq!(c.backend, r.backend);
    assert_eq!(c.operation, r.operation);
    assert_eq!(c.min_ns, r.min_ns);
    assert_eq!(c.max_ns, r.max_ns);
    assert_eq!(c.mean_ns_x100, r.mean_ns_x100);
    assert_eq!(c.std_dev_ns_x100, r.std_dev_ns_x100);
    assert_eq!(c.gops_x10000, r.gops_x10000);
    assert_eq!(c.cycles_per_op_x10000, r.cycles_per_op_x10000);
}
