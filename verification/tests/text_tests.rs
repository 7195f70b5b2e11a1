use field_ops_benchmarks::{Backend, Operation};
use field_ops_benchmarks::textfmt::{
    fixed2_to_string, fixed4_to_string, str_eq, string_eq, u128_to_string, u64_to_string,
};
use field_ops_benchmarks::results::chrono_lite_timestamp;
use field_ops_benchmarks::runner::input_data;
use field_ops_benchmarks::select::{
    chosen_backends, chosen_operations, operations_for_backends, ops_for_backend_in_selection,
};

#[test]
fn decimal_numerals() {
    assert_eq!(u64_to_string(0), "0");
    assert_eq!(u64_to_string(7), "7");
    assert_eq!(u64_to_string(10), "10");
    assert_eq!(u64_to_string(65536), "65536");
    assert_eq!(u64_to_string(u64::MAX), "18446744073709551615");
    assert_eq!(u128_to_string(u128::MAX), "340282366920938463463374607431768211455");
}

#[test]
fn fixed_point_two_places() {
    assert_eq!(fixed2_to_string(0), "0.00");
    assert_eq!(fixed2_to_string(5), "0.05");
    assert_eq!(fixed2_to_string(50), "0.50");
    assert_eq!(fixed2_to_string(150), "1.50");
    assert_eq!(fixed2_to_string(100_000_000), "1000000.00");
}

#[test]
fn fixed_point_four_places() {
    assert_eq!(fixed4_to_string(0), "0.0000");
    assert_eq!(fixed4_to_string(3), "0.0003");
    assert_eq!(fixed4_to_string(65_536), "6.5536");
    assert_eq!(fixed4_to_string(10_000), "1.0000");
}

#[test]
fn string_comparison_is_exact() {
    assert!(str_eq("", ""));
    assert!(str_eq("abc", "abc"));
    assert!(!str_eq("abc", "abd"));
    assert!(!str_eq("abc", "ab"));
    assert!(string_eq(&"field_ops_benchmarks".to_string(), &"field_ops_benchmarks".to_string()));
    assert!(!string_eq(&"a".to_string(), &"b".to_string()));
}

#[test]
fn timestamp_is_a_decimal_numeral() {
    let t = chrono_lite_timestamp();
    assert!(!t.is_empty());
    assert!(t.chars().all(|c| c.is_ascii_digit()));
}

#[test]
fn input_data_matches_the_documented_mixing() {
    let seed: u32 = 0x12345678;
    let data = input_data(seed, 16);
    assert_eq!(data.len(), 16);
    for (i, word) in data.iter().enumerate() {
        let expected = seed.wrapping_add(i as u32).wrapping_mul(0x9E37_79B9);
        assert_eq!(*word, expected);
    }
}

#[test]
fn input_data_zero_seed_values() {
    let data = input_data(0, 3);
    assert_eq!(data, vec![0, 0x9E37_79B9, 1_013_904_242]);
}

#[test]
fn quick_run_operations_are_sorted_and_unique() {
    // both backends together: every operation except the
    // never-available native wide add, ordered by stable name
    let ops = operations_for_backends(&vec![Backend::Metal, Backend::WebGPU]);
    assert_eq!(
        ops,
        vec![
            Operation::FieldAdd,
            Operation::FieldMul,
            Operation::MersenneFieldAdd,
            Operation::MersenneFieldMul,
            Operation::U32Add,
            Operation::U64AddEmulated,
        ]
    );
    // a backend with native wide arithmetic drops the emulated kernel
    let ops = operations_for_backends(&vec![Backend::Metal]);
    assert!(!ops.contains(&Operation::U64AddEmulated));
    // no backends, no operations
    assert!(operations_for_backends(&vec![]).is_empty());
}

#[test]
fn backend_selection_defaults_to_first_available() {
    assert_eq!(chosen_backends(&vec![]), Some(vec![Backend::WebGPU]));
}

#[test]
fn backend_selection_keeps_available_choices_in_order() {
    // index 0 is Metal (unavailable in this build), index 1 is WebGPU
    assert_eq!(chosen_backends(&vec![1]), Some(vec![Backend::WebGPU]));
    assert_eq!(chosen_backends(&vec![0, 1]), Some(vec![Backend::WebGPU]));
    assert_eq!(chosen_backends(&vec![0]), None);
    assert_eq!(chosen_backends(&vec![5]), None);
}

#[test]
fn session_operations_respect_availability_and_selection() {
    let selected = vec![Operation::U64AddEmulated, Operation::FieldMul, Operation::U32Add];
    // WebGPU offers the emulated wide add; the order follows the
    // operation declaration order, not the selection order
    assert_eq!(
        ops_for_backend_in_selection(Backend::WebGPU, &selected),
        vec![Operation::U32Add, Operation::U64AddEmulated, Operation::FieldMul]
    );
    // a native-wide backend never runs the emulation-only kernel
    assert_eq!(
        ops_for_backend_in_selection(Backend::Metal, &selected),
        vec![Operation::U32Add, Operation::FieldMul]
    );
    assert!(ops_for_backend_in_selection(Backend::WebGPU, &vec![]).is_empty());
}

#[test]
fn operation_selection_resolves_indices() {
    let available = vec![Operation::U32Add, Operation::FieldAdd, Operation::FieldMul];
    // index 0 means "all operations"
    assert_eq!(chosen_operations(&available, &vec![0]), available);
    // nothing selected means all
    assert_eq!(chosen_operations(&available, &vec![]), available);
    // indices are shifted by one past the "all" entry
    assert_eq!(
        chosen_operations(&available, &vec![1, 3]),
        vec![Operation::U32Add, Operation::FieldMul]
    );
    // out-of-range indices are ignored; an empty pick means all
    assert_eq!(chosen_operations(&available, &vec![9]), available);
}
