use field_ops_benchmarks::Operation;
use field_ops_benchmarks::config::{BenchmarkConfig, BenchmarkRun, WORKGROUP_SIZES};
use field_ops_benchmarks::Backend;

#[test]
fn default_config_values() {
    let cfg = BenchmarkConfig::default();
    assert_eq!(cfg.ops_per_thread, 100);
    assert_eq!(cfg.workgroup_size, 64);
    assert_eq!(cfg.num_workgroups, 1024);
    assert_eq!(cfg.warmup_iterations, 3);
    assert_eq!(cfg.measurement_iterations, 10);
    assert_eq!(cfg.seed, 0x12345678);
    assert!(cfg.auto_calibrate);
    assert!(cfg.is_wf());
}

#[test]
fn builders_replace_one_field() {
    let cfg = BenchmarkConfig::default()
        .with_workgroup_size(128)
        .with_ops_per_thread(500)
        .with_iterations(25)
        .with_auto_calibrate(false);
    assert_eq!(cfg.workgroup_size, 128);
    assert_eq!(cfg.ops_per_thread, 500);
    assert_eq!(cfg.measurement_iterations, 25);
    assert!(!cfg.auto_calibrate);
    assert_eq!(cfg.num_workgroups, 1024);
    assert_eq!(cfg.warmup_iterations, 3);
    assert_eq!(cfg.seed, 0x12345678);
}

#[test]
fn effective_config_uses_calibrated_default() {
    let cfg = BenchmarkConfig::default();
    let eff = cfg.for_operation(Operation::FieldMul);
    assert_eq!(eff.ops_per_thread, 20);
    assert_eq!(eff.workgroup_size, cfg.workgroup_size);
    assert_eq!(eff.num_workgroups, cfg.num_workgroups);
    assert_eq!(eff.warmup_iterations, cfg.warmup_iterations);
    assert_eq!(eff.measurement_iterations, cfg.measurement_iterations);
    assert_eq!(eff.seed, cfg.seed);
    assert!(eff.auto_calibrate);
}

#[test]
fn effective_config_passes_through_without_auto_calibrate() {
    let cfg = BenchmarkConfig::default().with_auto_calibrate(false);
    let eff = cfg.for_operation(Operation::FieldMul);
    assert_eq!(eff, cfg);
}

#[test]
fn effective_config_is_idempotent() {
    for op in Operation::all() {
        for auto in [true, false] {
            let cfg = BenchmarkConfig::default().with_auto_calibrate(auto);
            let once = cfg.for_operation(op);
            let twice = once.for_operation(op);
            assert_eq!(twice, once);
        }
    }
}

#[test]
fn total_threads_and_operations() {
    let cfg = BenchmarkConfig::default();
    assert_eq!(cfg.total_threads(), 64 * 1024);
    assert_eq!(cfg.total_operations(), 64 * 1024 * 100);
}

#[test]
fn wf_rejects_zero_fields() {
    let cfg = BenchmarkConfig::default().with_ops_per_thread(0);
    assert!(!cfg.is_wf());
    let cfg = BenchmarkConfig::default().with_workgroup_size(0);
    assert!(!cfg.is_wf());
    let cfg = BenchmarkConfig::default().with_iterations(0);
    assert!(!cfg.is_wf());
}

#[test]
fn wf_rejects_excessive_iterations() {
    let cfg = BenchmarkConfig::default().with_iterations(100_001);
    assert!(!cfg.is_wf());
    let cfg = BenchmarkConfig::default().with_iterations(100_000);
    assert!(cfg.is_wf());
}

#[test]
fn benchmark_run_holds_defaults() {
    let run = BenchmarkRun::new(Backend::WebGPU, Operation::FieldAdd);
    assert_eq!(run.backend, Backend::WebGPU);
    assert_eq!(run.operation, Operation::FieldAdd);
    assert_eq!(run.config, BenchmarkConfig::default());
    let run = run.with_config(BenchmarkConfig::default().with_workgroup_size(256));
    assert_eq!(run.config.workgroup_size, 256);
}

#[test]
fn workgroup_size_choices() {
    assert_eq!(WORKGROUP_SIZES, [64, 128, 256]);
}

#[test]
fn batch_config_full_mode_overrides() {
    let cfg = field_ops_benchmarks::select::batch_config(128, 42, 7, true);
    assert_eq!(cfg.workgroup_size, 128);
    assert_eq!(cfg.ops_per_thread, 10_000);
    assert_eq!(cfg.measurement_iterations, 100);
    assert!(!cfg.auto_calibrate);
}

#[test]
fn batch_config_keeps_requested_values() {
    let cfg = field_ops_benchmarks::select::batch_config(128, 42, 7, false);
    assert_eq!(cfg.workgroup_size, 128);
    assert_eq!(cfg.ops_per_thread, 42);
    assert_eq!(cfg.measurement_iterations, 7);
    assert!(cfg.auto_calibrate);
    assert_eq!(cfg.seed, 0x12345678);
    assert_eq!(cfg.warmup_iterations, 3);
}

#[test]
fn kernel_parameter_block_layout() {
    let cfg = BenchmarkConfig::default().with_ops_per_thread(77);
    let words = field_ops_benchmarks::runner::bench_params_words(&cfg);
    assert_eq!(words, vec![77, 0x12345678, 0, 0]);
}
