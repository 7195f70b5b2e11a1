use field_ops_benchmarks::{Backend, Operation};
use field_ops_benchmarks::select::operation_by_name;
use field_ops_benchmarks::runner::operation_to_entry_point;

#[test]
fn backend_names() {
    assert_eq!(Backend::Metal.name(), "Metal");
    assert_eq!(Backend::WebGPU.name(), "WebGPU");
}

#[test]
fn backend_native_wide_flag() {
    assert!(Backend::Metal.has_native_u64());
    assert!(!Backend::WebGPU.has_native_u64());
}

#[test]
fn backend_all_and_available() {
    let all = Backend::all();
    assert_eq!(all, vec![Backend::Metal, Backend::WebGPU]);
    let available = Backend::available();
    assert_eq!(available, vec![Backend::WebGPU]);
    assert!(!Backend::Metal.is_available());
    assert!(Backend::WebGPU.is_available());
}

#[test]
fn operation_names_are_stable() {
    assert_eq!(Operation::U32Add.name(), "u32_add");
    assert_eq!(Operation::U64AddNative.name(), "u64_add_native");
    assert_eq!(Operation::U64AddEmulated.name(), "u64_add_emulated");
    assert_eq!(Operation::FieldMul.name(), "field_mul");
    assert_eq!(Operation::FieldAdd.name(), "field_add");
    assert_eq!(Operation::MersenneFieldAdd.name(), "mersenne_field_add");
    assert_eq!(Operation::MersenneFieldMul.name(), "mersenne_field_mul");
}

#[test]
fn operation_descriptions_exist() {
    for op in Operation::all() {
        assert!(!op.description().is_empty());
    }
}

#[test]
fn operation_flags() {
    for op in Operation::all() {
        assert_eq!(op.requires_native_u64(), op == Operation::U64AddNative);
        assert_eq!(op.is_emulation_only(), op == Operation::U64AddEmulated);
    }
}

#[test]
fn calibrated_ops_per_thread_values() {
    assert_eq!(Operation::U32Add.calibrated_ops_per_thread(), 1000);
    assert_eq!(Operation::U64AddNative.calibrated_ops_per_thread(), 1000);
    assert_eq!(Operation::U64AddEmulated.calibrated_ops_per_thread(), 500);
    assert_eq!(Operation::FieldMul.calibrated_ops_per_thread(), 20);
    assert_eq!(Operation::FieldAdd.calibrated_ops_per_thread(), 20);
    assert_eq!(Operation::MersenneFieldAdd.calibrated_ops_per_thread(), 500);
    assert_eq!(Operation::MersenneFieldMul.calibrated_ops_per_thread(), 200);
}

#[test]
fn availability_follows_flag_formula_for_every_pair() {
    // every (backend, operation) pair: membership is exactly
    // !requires_native && !(emulation_only && has_native)
    for backend in Backend::all() {
        let available = Operation::available_for(backend);
        for op in Operation::all() {
            let expected =
                !op.requires_native_u64() && !(op.is_emulation_only() && backend.has_native_u64());
            assert_eq!(available.contains(&op), expected);
        }
    }
}

#[test]
fn availability_flag_combinations() {
    // the three flags that the formula reads, over every realized
    // combination: has_native_wide per backend, and the two operation
    // flags per operation
    let mut seen = Vec::new();
    for backend in Backend::all() {
        for op in Operation::all() {
            let combo = (
                backend.has_native_u64(),
                op.requires_native_u64(),
                op.is_emulation_only(),
            );
            if !seen.contains(&combo) {
                seen.push(combo);
            }
            let available = Operation::available_for(backend).contains(&op);
            assert_eq!(available, !combo.1 && !(combo.2 && combo.0));
        }
    }
    // no operation carries both flags, so six of the eight combinations
    // are realized
    assert_eq!(seen.len(), 6);
}

#[test]
fn availability_preserves_declaration_order() {
    let metal_ops = Operation::available_for(Backend::Metal);
    assert_eq!(
        metal_ops,
        vec![
            Operation::U32Add,
            Operation::FieldMul,
            Operation::FieldAdd,
            Operation::MersenneFieldAdd,
            Operation::MersenneFieldMul,
        ]
    );
    let webgpu_ops = Operation::available_for(Backend::WebGPU);
    assert_eq!(
        webgpu_ops,
        vec![
            Operation::U32Add,
            Operation::U64AddEmulated,
            Operation::FieldMul,
            Operation::FieldAdd,
            Operation::MersenneFieldAdd,
            Operation::MersenneFieldMul,
        ]
    );
}

#[test]
fn operation_lookup_by_name() {
    assert_eq!(operation_by_name("u32_add"), Some(Operation::U32Add));
    assert_eq!(operation_by_name("field_mul"), Some(Operation::FieldMul));
    assert_eq!(operation_by_name("mersenne_field_mul"), Some(Operation::MersenneFieldMul));
    assert_eq!(operation_by_name("no_such_op"), None);
    assert_eq!(operation_by_name(""), None);
}

#[test]
fn entry_point_mapping_is_total() {
    assert_eq!(operation_to_entry_point(Operation::U32Add), "bench_u32_add");
    assert_eq!(operation_to_entry_point(Operation::U64AddNative), "bench_u64_add");
    assert_eq!(operation_to_entry_point(Operation::U64AddEmulated), "bench_u64_add");
    assert_eq!(operation_to_entry_point(Operation::FieldMul), "bench_field_mul");
    assert_eq!(operation_to_entry_point(Operation::FieldAdd), "bench_field_add");
    assert_eq!(
        operation_to_entry_point(Operation::MersenneFieldAdd),
        "bench_mersenne_field_add"
    );
    assert_eq!(
        operation_to_entry_point(Operation::MersenneFieldMul),
        "bench_mersenne_field_mul"
    );
}
