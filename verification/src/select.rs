//! Pure decision logic behind the interactive and batch selection of
//! backends, operations and parameters.

use vstd::prelude::*;
use crate::{Backend, Operation};
use crate::config::BenchmarkConfig;

verus! {

/// A user's benchmark selection: which backends, which operations, and
/// the shared configuration.
#[derive(Debug)]
pub struct BenchmarkSelection {
    pub backends: Vec<Backend>,
    pub operations: Vec<Operation>,
    pub config: BenchmarkConfig,
}

impl Clone for BenchmarkSelection {
    /// A copy with the same backends, operations and configuration.
    fn clone(&self) -> (res: Self)
        ensures
            res.backends@ == self.backends@,
            res.operations@ == self.operations@,
            res.config == self.config,
    {
        let mut backends: Vec<Backend> = Vec::new();
        let n = self.backends.len();
        let mut i: usize = 0;
        while i < n
            invariant
                i <= n,
                n == self.backends@.len(),
                backends@ == self.backends@.take(i as int),
            decreases n - i,
        {
            backends.push(self.backends[i]);
            proof {
                assert(self.backends@.take(i + 1 as int) =~= self.backends@.take(i as int).push(
                    self.backends@[i as int],
                ));
            }
            i += 1;
        }
        proof {
            assert(self.backends@.take(n as int) =~= self.backends@);
        }
        BenchmarkSelection {
            backends,
            operations: clone_operations(&self.operations),
            config: self.config,
        }
    }
}

/// The configuration a batch run uses: the full mode fixes 10000
/// operations per thread over 100 iterations without auto-calibration;
/// otherwise the requested values stand, with auto-calibration left on.
pub open spec fn spec_batch_config(workgroup: u32, ops: u32, iterations: u32, full: bool) -> BenchmarkConfig {
    if full {
        BenchmarkConfig {
            workgroup_size: workgroup,
            ops_per_thread: 10000,
            measurement_iterations: 100,
            auto_calibrate: false,
            ..BenchmarkConfig::spec_default()
        }
    } else {
        BenchmarkConfig {
            workgroup_size: workgroup,
            ops_per_thread: ops,
            measurement_iterations: iterations,
            ..BenchmarkConfig::spec_default()
        }
    }
}

/// Derive the batch-mode configuration from the command-line values.
pub fn batch_config(workgroup: u32, ops: u32, iterations: u32, full: bool) -> (r: BenchmarkConfig)
    ensures
        r == spec_batch_config(workgroup, ops, iterations, full),
{
    if full {
        BenchmarkConfig::default()
            .with_workgroup_size(workgroup)
            .with_ops_per_thread(10_000)
            .with_iterations(100)
            .with_auto_calibrate(false)
    } else {
        BenchmarkConfig::default()
            .with_workgroup_size(workgroup)
            .with_ops_per_thread(ops)
            .with_iterations(iterations)
    }
}

/// The operation with stable name `name`, if any.
pub fn operation_by_name(name: &str) -> (r: Option<Operation>)
    ensures
        r matches Some(op) ==> op.spec_name() == name@,
        r is None ==> forall|op: Operation| op.spec_name() != name@,
{
    let ops = Operation::all();
    let mut i: usize = 0;
    while i < ops.len()
        invariant
            i <= ops@.len(),
            ops@ == Operation::spec_all(),
            forall|j: int| 0 <= j < i ==> (#[trigger] ops@[j]).spec_name() != name@,
        decreases ops@.len() - i,
    {
        if crate::textfmt::str_eq(ops[i].name(), name) {
            return Option::Some(ops[i]);
        }
        i += 1;
    }
    proof {
        assert forall|op: Operation| op.spec_name() != name@ by {
            let j = match op {
                Operation::U32Add => 0int,
                Operation::U64AddNative => 1,
                Operation::U64AddEmulated => 2,
                Operation::FieldMul => 3,
                Operation::FieldAdd => 4,
                Operation::MersenneFieldAdd => 5,
                Operation::MersenneFieldMul => 6,
            };
            assert(Operation::spec_all()[j] == op);
        }
    }
    Option::None
}

/// Every operation, ordered by stable name.
pub open spec fn spec_name_order() -> Seq<Operation> {
    seq![
        Operation::FieldAdd,
        Operation::FieldMul,
        Operation::MersenneFieldAdd,
        Operation::MersenneFieldMul,
        Operation::U32Add,
        Operation::U64AddEmulated,
        Operation::U64AddNative,
    ]
}

/// Whether `op` is available on at least one of `backends`.
pub open spec fn spec_available_on_any(op: Operation, backends: Seq<Backend>) -> bool {
    exists|k: int| 0 <= k < backends.len() && op.spec_available_on(backends[k])
}

/// Runtime form of `spec_available_on_any`.
fn available_on_any(op: Operation, backends: &Vec<Backend>) -> (r: bool)
    ensures
        r == spec_available_on_any(op, backends@),
{
    let n = backends.len();
    let mut k: usize = 0;
    while k < n
        invariant
            k <= n,
            n == backends@.len(),
            forall|j: int| 0 <= j < k ==> !op.spec_available_on(#[trigger] backends@[j]),
        decreases n - k,
    {
        let b = backends[k];
        if !op.requires_native_u64() && !(op.is_emulation_only() && b.has_native_u64()) {
            proof {
                assert(op.spec_available_on(backends@[k as int]));
            }
            return true;
        }
        k += 1;
    }
    proof {
        if spec_available_on_any(op, backends@) {
            let j = choose|j: int| 0 <= j < backends@.len() && op.spec_available_on(backends@[j]);
            assert(!op.spec_available_on(backends@[j]));
        }
    }
    false
}

/// The operations a quick run covers for the selected backends: every
/// operation available on at least one of them, ordered by stable name,
/// without repeats.
pub fn operations_for_backends(backends: &Vec<Backend>) -> (r: Vec<Operation>)
    ensures
        r@ == spec_name_order().filter(|op: Operation| spec_available_on_any(op, backends@)),
{
    let all = operations_in_name_order();
    let mut r: Vec<Operation> = Vec::new();
    let mut i: usize = 0;
    proof {
        assert(spec_name_order().take(0) =~= Seq::<Operation>::empty());
        reveal(Seq::filter);
    }
    while i < all.len()
        invariant
            i <= all@.len(),
            all@ == spec_name_order(),
            r@ == spec_name_order().take(i as int).filter(
                |op: Operation| spec_available_on_any(op, backends@),
            ),
        decreases all@.len() - i,
    {
        proof {
            reveal(Seq::filter);
            assert(spec_name_order().take(i + 1 as int).drop_last() =~= spec_name_order().take(
                i as int,
            ));
            assert(spec_name_order().take(i + 1 as int).last() == spec_name_order()[i as int]);
        }
        if available_on_any(all[i], backends) {
            r.push(all[i]);
        }
        i += 1;
    }
    proof {
        assert(spec_name_order().take(all@.len() as int) =~= spec_name_order());
    }
    r
}

/// Every operation, ordered by stable name.
fn operations_in_name_order() -> (r: Vec<Operation>)
    ensures
        r@ == spec_name_order(),
{
    let mut v: Vec<Operation> = Vec::new();
    v.push(Operation::FieldAdd);
    v.push(Operation::FieldMul);
    v.push(Operation::MersenneFieldAdd);
    v.push(Operation::MersenneFieldMul);
    v.push(Operation::U32Add);
    v.push(Operation::U64AddEmulated);
    v.push(Operation::U64AddNative);
    proof {
        assert(v@ =~= spec_name_order());
    }
    v
}

/// The backends a multi-selection of indices (into `Backend::all`)
/// resolves to: with nothing selected, the first available backend;
/// otherwise the selected backends that are available, in selection
/// order; `None` when no available backend results.
pub open spec fn spec_chosen_backends(selections: Seq<usize>) -> Option<Seq<Backend>> {
    let avail = Backend::spec_all().filter(|b: Backend| b.spec_is_available());
    if avail.len() == 0 {
        Option::None
    } else if selections.len() == 0 {
        Option::Some(seq![avail[0]])
    } else {
        let picked = selections.filter(
            |i: usize| i < Backend::spec_all().len() && Backend::spec_all()[i as int].spec_is_available(),
        ).map_values(|i: usize| Backend::spec_all()[i as int]);
        if picked.len() == 0 {
            Option::None
        } else {
            Option::Some(picked)
        }
    }
}

/// Resolve a backend multi-selection as `spec_chosen_backends` says.
pub fn chosen_backends(selections: &Vec<usize>) -> (r: Option<Vec<Backend>>)
    ensures
        r is Some <==> spec_chosen_backends(selections@) is Some,
        r matches Some(v) ==> spec_chosen_backends(selections@) == Option::Some(v@),
{
    let all = Backend::all();
    let available = Backend::available();
    let ghost avail = Backend::spec_all().filter(|b: Backend| b.spec_is_available());
    proof {
        assert(avail.contains(Backend::WebGPU));
        assert(avail.len() >= 1);
    }
    if selections.len() == 0 {
        let mut v: Vec<Backend> = Vec::new();
        v.push(available[0]);
        proof {
            assert(v@ =~= seq![avail[0]]);
        }
        return Option::Some(v);
    }
    let ghost keep = |i: usize|
        i < Backend::spec_all().len() && Backend::spec_all()[i as int].spec_is_available();
    let mut picked: Vec<Backend> = Vec::new();
    let n = selections.len();
    let mut k: usize = 0;
    proof {
        reveal(Seq::filter);
        assert(selections@.take(0) =~= Seq::<usize>::empty());
        assert(picked@ =~= selections@.take(0).filter(keep).map_values(
            |i: usize| Backend::spec_all()[i as int],
        ));
    }
    while k < n
        invariant
            k <= n,
            n == selections@.len(),
            all@ == Backend::spec_all(),
            keep == (|i: usize|
                i < Backend::spec_all().len() && Backend::spec_all()[i as int].spec_is_available()),
            picked@ == selections@.take(k as int).filter(keep).map_values(
                |i: usize| Backend::spec_all()[i as int],
            ),
        decreases n - k,
    {
        let idx = selections[k];
        proof {
            reveal(Seq::filter);
            let pre = selections@.take(k as int);
            let cur = selections@.take(k + 1 as int);
            assert(cur.drop_last() =~= pre);
            assert(cur.last() == selections@[k as int]);
            if keep(selections@[k as int]) {
                assert(cur.filter(keep).map_values(|i: usize| Backend::spec_all()[i as int])
                    =~= pre.filter(keep).map_values(|i: usize| Backend::spec_all()[i as int]).push(
                    Backend::spec_all()[selections@[k as int] as int],
                ));
            }
        }
        if idx < all.len() && all[idx].is_available() {
            picked.push(all[idx]);
        }
        k += 1;
    }
    proof {
        assert(selections@.take(n as int) =~= selections@);
    }
    if picked.len() == 0 {
        Option::None
    } else {
        Option::Some(picked)
    }
}

/// The operations a multi-selection of indices resolves to, where index
/// 0 is an "all operations" choice and index `i >= 1` picks
/// `available[i - 1]`: nothing selected, an explicit "all", or an empty
/// pick each resolve to every available operation.
pub open spec fn spec_chosen_operations(available: Seq<Operation>, selections: Seq<usize>) -> Seq<
    Operation,
> {
    if selections.len() == 0 || selections.contains(0) {
        available
    } else {
        let picked = selections.filter(|i: usize| 1 <= i && i <= available.len()).map_values(
            |i: usize| available[i - 1],
        );
        if picked.len() == 0 {
            available
        } else {
            picked
        }
    }
}

/// Resolve an operation multi-selection as `spec_chosen_operations`
/// says.
pub fn chosen_operations(available: &Vec<Operation>, selections: &Vec<usize>) -> (r: Vec<Operation>)
    ensures
        r@ == spec_chosen_operations(available@, selections@),
{
    if selections.len() == 0 || contains_zero(selections) {
        return clone_operations(available);
    }
    let ghost keep = |i: usize| 1 <= i && i <= available@.len();
    let mut picked: Vec<Operation> = Vec::new();
    let n = selections.len();
    let mut k: usize = 0;
    proof {
        reveal(Seq::filter);
        assert(selections@.take(0) =~= Seq::<usize>::empty());
        assert(picked@ =~= selections@.take(0).filter(keep).map_values(
            |i: usize| available@[i - 1],
        ));
    }
    while k < n
        invariant
            k <= n,
            n == selections@.len(),
            keep == (|i: usize| 1 <= i && i <= available@.len()),
            picked@ == selections@.take(k as int).filter(keep).map_values(
                |i: usize| available@[i - 1],
            ),
        decreases n - k,
    {
        let idx = selections[k];
        proof {
            reveal(Seq::filter);
            let pre = selections@.take(k as int);
            let cur = selections@.take(k + 1 as int);
            assert(cur.drop_last() =~= pre);
            assert(cur.last() == selections@[k as int]);
            if keep(selections@[k as int]) {
                assert(cur.filter(keep).map_values(|i: usize| available@[i - 1]) =~= pre.filter(
                    keep,
                ).map_values(|i: usize| available@[i - 1]).push(
                    available@[selections@[k as int] - 1],
                ));
            }
        }
        if 1 <= idx && idx <= available.len() {
            picked.push(available[idx - 1]);
        }
        k += 1;
    }
    proof {
        assert(selections@.take(n as int) =~= selections@);
    }
    if picked.len() == 0 {
        clone_operations(available)
    } else {
        picked
    }
}

/// Whether `op` occurs in `ops`.
fn contains_operation(ops: &Vec<Operation>, op: Operation) -> (r: bool)
    ensures
        r == ops@.contains(op),
{
    let n = ops.len();
    let mut i: usize = 0;
    while i < n
        invariant
            i <= n,
            n == ops@.len(),
            forall|j: int| 0 <= j < i ==> ops@[j] != op,
        decreases n - i,
    {
        if ops[i] == op {
            return true;
        }
        i += 1;
    }
    proof {
        if ops@.contains(op) {
            let j = choose|j: int| 0 <= j < ops@.len() && ops@[j] == op;
            assert(ops@[j] != op);
        }
    }
    false
}

/// The operations a session runs on one backend: those available on it,
/// in declaration order, restricted to the user's selection.
pub fn ops_for_backend_in_selection(backend: Backend, selected: &Vec<Operation>) -> (r: Vec<
    Operation,
>)
    ensures
        r@ == Operation::spec_all().filter(|op: Operation| op.spec_available_on(backend)).filter(
            |op: Operation| selected@.contains(op),
        ),
{
    let available = Operation::available_for(backend);
    let ghost avail = Operation::spec_all().filter(|op: Operation| op.spec_available_on(backend));
    let ghost picked = |op: Operation| selected@.contains(op);
    let mut r: Vec<Operation> = Vec::new();
    let n = available.len();
    let mut i: usize = 0;
    proof {
        reveal(Seq::filter);
        assert(avail.take(0) =~= Seq::<Operation>::empty());
        assert(r@ =~= avail.take(0).filter(picked));
    }
    while i < n
        invariant
            i <= n,
            n == available@.len(),
            available@ == avail,
            picked == (|op: Operation| selected@.contains(op)),
            r@ == avail.take(i as int).filter(picked),
        decreases n - i,
    {
        proof {
            reveal(Seq::filter);
            assert(avail.take(i + 1 as int).drop_last() =~= avail.take(i as int));
            assert(avail.take(i + 1 as int).last() == avail[i as int]);
        }
        if contains_operation(selected, available[i]) {
            r.push(available[i]);
        }
        i += 1;
    }
    proof {
        assert(avail.take(n as int) =~= avail);
    }
    r
}

/// Whether the selection contains index 0.
fn contains_zero(selections: &Vec<usize>) -> (r: bool)
    ensures
        r == selections@.contains(0),
{
    let n = selections.len();
    let mut i: usize = 0;
    while i < n
        invariant
            i <= n,
            n == selections@.len(),
            forall|j: int| 0 <= j < i ==> selections@[j] != 0,
        decreases n - i,
    {
        if selections[i] == 0 {
            return true;
        }
        i += 1;
    }
    proof {
        if selections@.contains(0) {
            let j = choose|j: int| 0 <= j < selections@.len() && selections@[j] == 0;
            assert(selections@[j] != 0);
        }
    }
    false
}

/// An element-wise copy of an operation list.
fn clone_operations(ops: &Vec<Operation>) -> (r: Vec<Operation>)
    ensures
        r@ == ops@,
{
    let mut r: Vec<Operation> = Vec::new();
    let n = ops.len();
    let mut i: usize = 0;
    while i < n
        invariant
            i <= n,
            n == ops@.len(),
            r@ == ops@.take(i as int),
        decreases n - i,
    {
        r.push(ops[i]);
        proof {
            assert(ops@.take(i + 1 as int) =~= ops@.take(i as int).push(ops@[i as int]));
        }
        i += 1;
    }
    proof {
        assert(ops@.take(n as int) =~= ops@);
    }
    r
}

} // verus!
