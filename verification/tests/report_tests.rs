use field_ops_benchmarks::results::{BenchmarkReport, BenchmarkResult};
use field_ops_benchmarks::reporter::{
    comparison_rows, get_display_name, get_equivalent_ops, merge_reports,
};

fn result_named(operation: &str, backend: &str, min_ns: u64, gops_x10000: u128) -> BenchmarkResult {
    BenchmarkResult {
        backend: backend.to_string(),
        operation: operation.to_string(),
        workgroup_size: 64,
        total_threads: 65536,
        ops_per_thread: 100,
        total_operations: 6_553_600,
        min_ns,
        max_ns: min_ns,
        mean_ns_x100: 100 * min_ns,
        std_dev_ns_x100: 0,
        gops_x10000,
        cycles_per_op_x10000: None,
    }
}

fn report_with(vendor: &str, results: Vec<BenchmarkResult>) -> BenchmarkReport {
    let mut report = BenchmarkReport::new(format!("{} device", vendor), vendor.to_string());
    for r in results {
        report.add_result(r);
    }
    report
}

fn names(report: &BenchmarkReport) -> Vec<String> {
    report.results.iter().map(|r| r.operation.clone()).collect()
}

#[test]
fn add_result_preserves_order() {
    let mut report = BenchmarkReport::new("dev".to_string(), "vendor".to_string());
    assert!(report.results.is_empty());
    report.add_result(result_named("u32_add", "WebGPU", 10, 1));
    report.add_result(result_named("field_mul", "WebGPU", 20, 2));
    assert_eq!(names(&report), vec!["u32_add", "field_mul"]);
}

#[test]
fn merge_concatenates_in_report_order() {
    let a = report_with("A", vec![result_named("u32_add", "A", 1, 1)]);
    let b = report_with(
        "B",
        vec![
            result_named("field_add", "B", 2, 2),
            result_named("field_mul", "B", 3, 3),
        ],
    );
    let merged = merge_reports(&vec![a, b]);
    assert_eq!(names(&merged), vec!["u32_add", "field_add", "field_mul"]);
    assert_eq!(merged.device_name, "A device + B device");
    assert_eq!(merged.device_vendor, "A + B");
}

#[test]
fn merge_of_nothing_is_empty() {
    let merged = merge_reports(&vec![]);
    assert!(merged.results.is_empty());
    assert_eq!(merged.device_name, "");
    assert_eq!(merged.device_vendor, "");
}

#[test]
fn merge_is_associative_over_result_sequences() {
    let a = report_with("A", vec![result_named("u32_add", "A", 1, 1)]);
    let b = report_with("B", vec![result_named("field_add", "B", 2, 2)]);
    let c = report_with(
        "C",
        vec![
            result_named("field_mul", "C", 3, 3),
            result_named("mersenne_field_add", "C", 4, 4),
        ],
    );
    let ab = merge_reports(&vec![a.clone(), b.clone()]);
    let bc = merge_reports(&vec![b.clone(), c.clone()]);
    let left = merge_reports(&vec![ab, c.clone()]);
    let right = merge_reports(&vec![a.clone(), bc]);
    let flat = merge_reports(&vec![a, b, c]);
    assert_eq!(names(&left), names(&right));
    assert_eq!(names(&left), names(&flat));
    assert_eq!(
        names(&flat),
        vec!["u32_add", "field_add", "field_mul", "mersenne_field_add"]
    );
}

#[test]
fn display_name_canonicalizes_wide_add() {
    assert_eq!(get_display_name("u64_add_native"), "u64_add");
    assert_eq!(get_display_name("u64_add_emulated"), "u64_add");
    assert_eq!(get_display_name("u32_add"), "u32_add");
    assert_eq!(get_display_name("anything_else"), "anything_else");
}

#[test]
fn equivalent_ops_cover_wide_add_family() {
    for key in ["u64_add", "u64_add_native", "u64_add_emulated"] {
        assert_eq!(
            get_equivalent_ops(key),
            vec!["u64_add_native", "u64_add_emulated"]
        );
    }
    assert!(get_equivalent_ops("u32_add").is_empty());
}

#[test]
fn overhead_needs_both_wide_add_variants() {
    let only_native = report_with("A", vec![result_named("u64_add_native", "A", 1_000_000, 1)]);
    assert_eq!(only_native.u64_overhead(), None);
    let only_emulated =
        report_with("A", vec![result_named("u64_add_emulated", "A", 2_500_000, 1)]);
    assert_eq!(only_emulated.u64_overhead(), None);
}

#[test]
fn overhead_is_the_min_time_ratio() {
    let report = report_with(
        "A",
        vec![
            result_named("u64_add_native", "A", 1_000_000, 50_000),
            result_named("u64_add_emulated", "A", 2_500_000, 20_000),
        ],
    );
    // emulated is 2.5x slower: the factor is kept scaled by 100
    assert_eq!(report.u64_overhead(), Some(250));
}

#[test]
fn overhead_undefined_for_zero_native_minimum() {
    let report = report_with(
        "A",
        vec![
            result_named("u64_add_native", "A", 0, 0),
            result_named("u64_add_emulated", "A", 2_500_000, 1),
        ],
    );
    assert_eq!(report.u64_overhead(), None);
}

#[test]
fn wide_add_variants_share_one_comparison_row() {
    // one report measured the native variant, the other the emulated
    // one: they align on the canonical key and the ratio resolves
    let r1 = report_with("Metal", vec![result_named("u64_add_native", "Metal", 1, 50_000)]);
    let r2 = report_with("WebGPU", vec![result_named("u64_add_emulated", "WebGPU", 1, 20_000)]);
    let rows = comparison_rows(&vec![r1, r2]);
    assert_eq!(rows.len(), 1);
    assert_eq!(rows[0].name, "u64_add");
    assert_eq!(rows[0].values, vec![Some(50_000), Some(20_000)]);
    // 5.0 / 2.0 GOP/s: a 2.5x ratio, scaled by 100
    assert_eq!(rows[0].ratio_x100, Some(250));
}

#[test]
fn ratio_absent_when_one_side_is_missing() {
    let r1 = report_with("Metal", vec![result_named("u64_add_native", "Metal", 1, 50_000)]);
    let r2 = report_with("WebGPU", vec![result_named("u32_add", "WebGPU", 1, 20_000)]);
    let rows = comparison_rows(&vec![r1, r2]);
    assert_eq!(rows.len(), 2);
    assert_eq!(rows[0].name, "u32_add");
    assert_eq!(rows[0].values, vec![None, Some(20_000)]);
    assert_eq!(rows[0].ratio_x100, None);
    assert_eq!(rows[1].name, "u64_add");
    assert_eq!(rows[1].values, vec![Some(50_000), None]);
    assert_eq!(rows[1].ratio_x100, None);
}

#[test]
fn ratio_absent_for_zero_denominator() {
    let r1 = report_with("A", vec![result_named("u32_add", "A", 0, 10_000)]);
    let r2 = report_with("B", vec![result_named("u32_add", "B", 0, 0)]);
    let rows = comparison_rows(&vec![r1, r2]);
    assert_eq!(rows.len(), 1);
    assert_eq!(rows[0].ratio_x100, None);
}

#[test]
fn comparison_rows_follow_canonical_order() {
    let scrambled = report_with(
        "A",
        vec![
            result_named("custom_kernel", "A", 1, 1),
            result_named("field_mul", "A", 1, 2),
            result_named("mersenne_field_add", "A", 1, 3),
            result_named("u32_add", "A", 1, 4),
        ],
    );
    let rows = comparison_rows(&vec![scrambled]);
    let row_names: Vec<&str> = rows.iter().map(|r| r.name.as_str()).collect();
    // known names in fixed priority order, then unclassified names in
    // first-appearance order
    assert_eq!(
        row_names,
        vec!["u32_add", "mersenne_field_add", "field_mul", "custom_kernel"]
    );
    for row in &rows {
        assert_eq!(row.values.len(), 1);
        assert_eq!(row.ratio_x100, None);
    }
}

#[test]
fn comparison_resolves_first_matching_result() {
    let report = report_with(
        "A",
        vec![
            result_named("u32_add", "A", 1, 111),
            result_named("u32_add", "A", 1, 222),
        ],
    );
    let rows = comparison_rows(&vec![report]);
    assert_eq!(rows.len(), 1);
    assert_eq!(rows[0].values, vec![Some(111)]);
}
