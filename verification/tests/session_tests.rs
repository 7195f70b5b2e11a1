use field_ops_benchmarks::{Backend, BenchmarkError, Operation};
use field_ops_benchmarks::config::BenchmarkConfig;
use field_ops_benchmarks::results::BenchmarkReport;
use field_ops_benchmarks::runner::{run_measurement, measure_operation, ConstantDispatcher, Dispatcher};
use field_ops_benchmarks::session::{run_session, Runner, ScriptedRunner};

struct FailingDispatcher {
    calls_before_failure: u32,
}

impl Dispatcher for FailingDispatcher {
    fn dispatch_timed(&mut self) -> Result<u64, BenchmarkError> {
        if self.calls_before_failure == 0 {
            Err(BenchmarkError::Execution("device lost".to_string()))
        } else {
            self.calls_before_failure -= 1;
            Ok(1_000)
        }
    }
}

#[test]
fn measurement_collects_exactly_the_requested_samples() {
    let mut d = ConstantDispatcher::new(2_000);
    let samples = run_measurement(&mut d, 3, 10).unwrap();
    assert_eq!(samples, vec![2_000; 10]);
}

#[test]
fn measurement_discards_partial_samples_on_failure() {
    // warmup succeeds, the 4th timed dispatch fails: no samples survive
    let mut d = FailingDispatcher { calls_before_failure: 6 };
    let r = run_measurement(&mut d, 3, 10);
    assert!(matches!(r, Err(BenchmarkError::Execution(_))));
}

#[test]
fn measurement_aborts_during_warmup() {
    let mut d = FailingDispatcher { calls_before_failure: 1 };
    let r = run_measurement(&mut d, 3, 10);
    assert!(matches!(r, Err(BenchmarkError::Execution(_))));
}

#[test]
fn constant_runner_scenario() {
    // the documented scenario: 64 x 1024 grid, 100 ops per thread,
    // 3 warmup and 10 measurement iterations, a constant 1ms dispatch
    let config = BenchmarkConfig {
        ops_per_thread: 100,
        workgroup_size: 64,
        num_workgroups: 1024,
        warmup_iterations: 3,
        measurement_iterations: 10,
        seed: 0x12345678,
        auto_calibrate: false,
    };
    assert!(config.is_wf());
    let mut d = ConstantDispatcher::new(1_000_000);
    let result =
        measure_operation(&mut d, Backend::WebGPU, Operation::U32Add, &config, None).unwrap();
    assert_eq!(result.operation, "u32_add");
    assert_eq!(result.total_threads, 65_536);
    assert_eq!(result.total_operations, 6_553_600);
    assert_eq!(result.min_ns, 1_000_000);
    assert_eq!(result.max_ns, 1_000_000);
    assert_eq!(result.mean_ns_x100, 100_000_000);
    assert_eq!(result.std_dev_ns_x100, 0);
    // about 6.5536 GOP/s, exact at four decimal places
    assert_eq!(result.gops_x10000, 65_536);
}

#[test]
fn session_skips_failed_operations() {
    // the runner fails field_mul but succeeds field_add: the report
    // gains exactly one result and the failure is recorded
    let runner = ScriptedRunner::new(Backend::WebGPU, "fake device".to_string())
        .with_entry(Operation::FieldMul, None)
        .with_entry(Operation::FieldAdd, Some(1_000_000));
    let mut runner = runner;
    let ops = vec![Operation::FieldMul, Operation::FieldAdd];
    let config = BenchmarkConfig::default();
    let mut report = BenchmarkReport::new(runner.device_name(), "WebGPU".to_string());
    let failures = run_session(&mut runner, &ops, &config, &mut report);
    assert_eq!(report.results.len(), 1);
    assert_eq!(report.results[0].operation, "field_add");
    assert_eq!(failures.len(), 1);
    assert_eq!(failures[0].0, Operation::FieldMul);
    assert!(matches!(failures[0].1, BenchmarkError::Execution(_)));
}

#[test]
fn session_applies_calibration_per_operation() {
    let mut runner = ScriptedRunner::new(Backend::WebGPU, "fake device".to_string())
        .with_entry(Operation::FieldAdd, Some(1_000))
        .with_entry(Operation::U32Add, Some(1_000));
    let ops = vec![Operation::FieldAdd, Operation::U32Add];
    let config = BenchmarkConfig::default();
    let mut report = BenchmarkReport::new("dev".to_string(), "WebGPU".to_string());
    let failures = run_session(&mut runner, &ops, &config, &mut report);
    assert!(failures.is_empty());
    assert_eq!(report.results.len(), 2);
    // auto-calibration replaced ops_per_thread per operation
    assert_eq!(report.results[0].operation, "field_add");
    assert_eq!(report.results[0].ops_per_thread, 20);
    assert_eq!(report.results[1].operation, "u32_add");
    assert_eq!(report.results[1].ops_per_thread, 1_000);
}

#[test]
fn session_reports_missing_kernels() {
    let mut runner = ScriptedRunner::new(Backend::WebGPU, "fake device".to_string());
    let ops = vec![Operation::U32Add];
    let config = BenchmarkConfig::default();
    let mut report = BenchmarkReport::new("dev".to_string(), "WebGPU".to_string());
    let failures = run_session(&mut runner, &ops, &config, &mut report);
    assert!(report.results.is_empty());
    assert_eq!(failures.len(), 1);
    assert!(matches!(failures[0].1, BenchmarkError::ShaderCompilation(_)));
}

#[test]
fn session_preserves_existing_results() {
    let mut runner = ScriptedRunner::new(Backend::WebGPU, "fake device".to_string())
        .with_entry(Operation::U32Add, Some(500));
    let config = BenchmarkConfig::default();
    let mut report = BenchmarkReport::new("dev".to_string(), "WebGPU".to_string());
    let first = run_session(&mut runner, &vec![Operation::U32Add], &config, &mut report);
    assert!(first.is_empty());
    let second = run_session(&mut runner, &vec![Operation::U32Add], &config, &mut report);
    assert!(second.is_empty());
    assert_eq!(report.results.len(), 2);
    assert_eq!(report.results[0].operation, "u32_add");
    assert_eq!(report.results[1].operation, "u32_add");
}

#[test]
fn error_descriptions_name_the_failure() {
    assert_eq!(BenchmarkError::NoDevice.describe(), "No GPU device found");
    assert_eq!(
        BenchmarkError::BackendNotAvailable("metal".to_string()).describe(),
        "Backend not available: metal"
    );
    assert_eq!(
        BenchmarkError::ShaderCompilation("missing entry".to_string()).describe(),
        "Shader compilation failed: missing entry"
    );
    assert_eq!(
        BenchmarkError::PipelineCreation("bad layout".to_string()).describe(),
        "Pipeline creation failed: bad layout"
    );
    assert_eq!(
        BenchmarkError::BufferCreation("out of memory".to_string()).describe(),
        "Buffer creation failed: out of memory"
    );
    assert_eq!(
        BenchmarkError::Execution("device lost".to_string()).describe(),
        "Execution failed: device lost"
    );
    assert_eq!(BenchmarkError::Io("disk full".to_string()).describe(), "IO error: disk full");
}
