//! GPU arithmetic benchmark engine: capability model, calibration,
//! measurement protocol, statistics, and cross-backend report comparison.

use vstd::prelude::*;
use vstd::string::StringExecFns;

pub mod config;
pub mod stats;
pub mod textfmt;
pub mod results;
pub mod reporter;
pub mod runner;
pub mod session;
pub mod select;

verus! {

/// Errors surfaced by benchmark execution and export.
#[derive(Debug)]
pub enum BenchmarkError {
    NoDevice,
    BackendNotAvailable(String),
    ShaderCompilation(String),
    PipelineCreation(String),
    BufferCreation(String),
    Execution(String),
    Io(String),
}

impl BenchmarkError {
    /// The user-visible description of the error.
    pub open spec fn spec_describe(self) -> Seq<char> {
        match self {
            BenchmarkError::NoDevice => "No GPU device found"@,
            BenchmarkError::BackendNotAvailable(s) => "Backend not available: "@ + s@,
            BenchmarkError::ShaderCompilation(s) => "Shader compilation failed: "@ + s@,
            BenchmarkError::PipelineCreation(s) => "Pipeline creation failed: "@ + s@,
            BenchmarkError::BufferCreation(s) => "Buffer creation failed: "@ + s@,
            BenchmarkError::Execution(s) => "Execution failed: "@ + s@,
            BenchmarkError::Io(s) => "IO error: "@ + s@,
        }
    }

    /// Render the error for the user: the failure kind, then the detail.
    pub fn describe(&self) -> (r: String)
        ensures
            r@ == self.spec_describe(),
    {
        match self {
            BenchmarkError::NoDevice => String::from_str("No GPU device found"),
            BenchmarkError::BackendNotAvailable(s) => {
                let mut r = String::from_str("Backend not available: ");
                r.append(s.as_str());
                r
            },
            BenchmarkError::ShaderCompilation(s) => {
                let mut r = String::from_str("Shader compilation failed: ");
                r.append(s.as_str());
                r
            },
            BenchmarkError::PipelineCreation(s) => {
                let mut r = String::from_str("Pipeline creation failed: ");
                r.append(s.as_str());
                r
            },
            BenchmarkError::BufferCreation(s) => {
                let mut r = String::from_str("Buffer creation failed: ");
                r.append(s.as_str());
                r
            },
            BenchmarkError::Execution(s) => {
                let mut r = String::from_str("Execution failed: ");
                r.append(s.as_str());
                r
            },
            BenchmarkError::Io(s) => {
                let mut r = String::from_str("IO error: ");
                r.append(s.as_str());
                r
            },
        }
    }
}

impl Clone for BenchmarkError {
    /// An exact copy of the error, detail included.
    fn clone(&self) -> (res: Self)
        ensures
            res == *self,
    {
        match self {
            BenchmarkError::NoDevice => BenchmarkError::NoDevice,
            BenchmarkError::BackendNotAvailable(s) => BenchmarkError::BackendNotAvailable(
                s.clone(),
            ),
            BenchmarkError::ShaderCompilation(s) => BenchmarkError::ShaderCompilation(s.clone()),
            BenchmarkError::PipelineCreation(s) => BenchmarkError::PipelineCreation(s.clone()),
            BenchmarkError::BufferCreation(s) => BenchmarkError::BufferCreation(s.clone()),
            BenchmarkError::Execution(s) => BenchmarkError::Execution(s.clone()),
            BenchmarkError::Io(s) => BenchmarkError::Io(s.clone()),
        }
    }
}

/// Available GPU backends.
#[derive(Debug, Clone, Copy, PartialEq, Eq, Hash, Structural)]
pub enum Backend {
    Metal,
    WebGPU,
}

impl Backend {
    /// Display name of the backend.
    pub open spec fn spec_name(self) -> Seq<char> {
        match self {
            Backend::Metal => "Metal"@,
            Backend::WebGPU => "WebGPU"@,
        }
    }

    pub fn name(&self) -> (r: &'static str)
        ensures
            r@ == self.spec_name(),
    {
        match self {
            Backend::Metal => "Metal",
            Backend::WebGPU => "WebGPU",
        }
    }

    /// Whether the backend has native wide-integer (64-bit) arithmetic.
    pub open spec fn spec_has_native_u64(self) -> bool {
        self is Metal
    }

    pub fn has_native_u64(&self) -> (r: bool)
        ensures
            r == self.spec_has_native_u64(),
    {
        matches!(self, Backend::Metal)
    }

    /// Whether this build can drive the backend at runtime. The Metal
    /// toolchain is not linked into this build, so only WebGPU is usable.
    pub open spec fn spec_is_available(self) -> bool {
        self is WebGPU
    }

    pub fn is_available(&self) -> (r: bool)
        ensures
            r == self.spec_is_available(),
    {
        matches!(self, Backend::WebGPU)
    }

    /// Every backend, in fixed declaration order.
    pub open spec fn spec_all() -> Seq<Backend> {
        seq![Backend::Metal, Backend::WebGPU]
    }

    pub fn all() -> (r: Vec<Backend>)
        ensures
            r@ == Backend::spec_all(),
    {
        let mut v: Vec<Backend> = Vec::new();
        v.push(Backend::Metal);
        v.push(Backend::WebGPU);
        proof {
            assert(v@ =~= Backend::spec_all());
        }
        v
    }

    /// The backends this build can drive, in declaration order.
    pub fn available() -> (r: Vec<Backend>)
        ensures
            r@ == Backend::spec_all().filter(|b: Backend| b.spec_is_available()),
            forall|b: Backend| r@.contains(b) <==> b.spec_is_available(),
    {
        let mut v: Vec<Backend> = Vec::new();
        v.push(Backend::WebGPU);
        proof {
            reveal_with_fuel(Seq::<_>::filter, 4);
            let f = |b: Backend| b.spec_is_available();
            let all = Backend::spec_all();
            assert(all.drop_last() =~= seq![Backend::Metal]);
            assert(seq![Backend::Metal].drop_last() =~= Seq::<Backend>::empty());
            assert(all.last() == Backend::WebGPU);
            assert(v@ =~= all.filter(f));
            assert(forall|b: Backend| v@.contains(b) <==> b.spec_is_available()) by {
                assert(v@[0] == Backend::WebGPU);
            }
        }
        v
    }
}

/// Benchmark operation kinds: one arithmetic kernel each, with a stable
/// cross-backend name.
#[derive(Debug, Clone, Copy, PartialEq, Eq, Hash, Structural)]
pub enum Operation {
    U32Add,
    U64AddNative,
    U64AddEmulated,
    FieldMul,
    FieldAdd,
    MersenneFieldAdd,
    MersenneFieldMul,
}

impl Operation {
    /// Stable name: report key and cross-run identifier.
    pub open spec fn spec_name(self) -> Seq<char> {
        match self {
            Operation::U32Add => "u32_add"@,
            Operation::U64AddNative => "u64_add_native"@,
            Operation::U64AddEmulated => "u64_add_emulated"@,
            Operation::FieldMul => "field_mul"@,
            Operation::FieldAdd => "field_add"@,
            Operation::MersenneFieldAdd => "mersenne_field_add"@,
            Operation::MersenneFieldMul => "mersenne_field_mul"@,
        }
    }

    pub fn name(&self) -> (r: &'static str)
        ensures
            r@ == self.spec_name(),
    {
        match self {
            Operation::U32Add => "u32_add",
            Operation::U64AddNative => "u64_add_native",
            Operation::U64AddEmulated => "u64_add_emulated",
            Operation::FieldMul => "field_mul",
            Operation::FieldAdd => "field_add",
            Operation::MersenneFieldAdd => "mersenne_field_add",
            Operation::MersenneFieldMul => "mersenne_field_mul",
        }
    }

    /// One-line description of the kernel.
    pub open spec fn spec_description(self) -> Seq<char> {
        match self {
            Operation::U32Add => "Native u32 addition"@,
            Operation::U64AddNative => "Native 64-bit addition (Metal only)"@,
            Operation::U64AddEmulated => "u64 addition via u32 pairs with carry (WebGPU only)"@,
            Operation::FieldMul => "BN254 Montgomery field multiplication"@,
            Operation::FieldAdd => "BN254 field addition"@,
            Operation::MersenneFieldAdd => "Mersenne (2^31-1) field addition"@,
            Operation::MersenneFieldMul => "Mersenne (2^31-1) field multiplication"@,
        }
    }

    pub fn description(&self) -> (r: &'static str)
        ensures
            r@ == self.spec_description(),
    {
        match self {
            Operation::U32Add => "Native u32 addition",
            Operation::U64AddNative => "Native 64-bit addition (Metal only)",
            Operation::U64AddEmulated => "u64 addition via u32 pairs with carry (WebGPU only)",
            Operation::FieldMul => "BN254 Montgomery field multiplication",
            Operation::FieldAdd => "BN254 field addition",
            Operation::MersenneFieldAdd => "Mersenne (2^31-1) field addition",
            Operation::MersenneFieldMul => "Mersenne (2^31-1) field multiplication",
        }
    }

    /// Whether the kernel needs native wide-integer arithmetic.
    pub open spec fn spec_requires_native_u64(self) -> bool {
        self is U64AddNative
    }

    pub fn requires_native_u64(&self) -> (r: bool)
        ensures
            r == self.spec_requires_native_u64(),
    {
        matches!(self, Operation::U64AddNative)
    }

    /// Whether the kernel exists only to emulate wide arithmetic on
    /// backends that lack it natively.
    pub open spec fn spec_is_emulation_only(self) -> bool {
        self is U64AddEmulated
    }

    pub fn is_emulation_only(&self) -> (r: bool)
        ensures
            r == self.spec_is_emulation_only(),
    {
        matches!(self, Operation::U64AddEmulated)
    }

    /// Calibrated per-thread iteration count, chosen so one operation's
    /// measurement phase stays within a few seconds.
    pub open spec fn spec_calibrated_ops_per_thread(self) -> u32 {
        match self {
            Operation::U32Add => 1000,
            Operation::U64AddNative => 1000,
            Operation::U64AddEmulated => 500,
            Operation::FieldMul => 20,
            Operation::FieldAdd => 20,
            Operation::MersenneFieldAdd => 500,
            Operation::MersenneFieldMul => 200,
        }
    }

    pub fn calibrated_ops_per_thread(&self) -> (r: u32)
        ensures
            r == self.spec_calibrated_ops_per_thread(),
            1 <= r <= 1000,
    {
        match self {
            Operation::U32Add => 1_000,
            Operation::U64AddNative => 1_000,
            Operation::U64AddEmulated => 500,
            Operation::FieldMul => 20,
            Operation::FieldAdd => 20,
            Operation::MersenneFieldAdd => 500,
            Operation::MersenneFieldMul => 200,
        }
    }

    /// Every operation, in fixed declaration order.
    pub open spec fn spec_all() -> Seq<Operation> {
        seq![
            Operation::U32Add,
            Operation::U64AddNative,
            Operation::U64AddEmulated,
            Operation::FieldMul,
            Operation::FieldAdd,
            Operation::MersenneFieldAdd,
            Operation::MersenneFieldMul,
        ]
    }

    pub fn all() -> (r: Vec<Operation>)
        ensures
            r@ == Operation::spec_all(),
    {
        let mut v: Vec<Operation> = Vec::new();
        v.push(Operation::U32Add);
        v.push(Operation::U64AddNative);
        v.push(Operation::U64AddEmulated);
        v.push(Operation::FieldMul);
        v.push(Operation::FieldAdd);
        v.push(Operation::MersenneFieldAdd);
        v.push(Operation::MersenneFieldMul);
        proof {
            assert(v@ =~= Operation::spec_all());
        }
        v
    }

    /// Availability of an operation on a backend: a pure, total function of
    /// the two flag attributes. An operation is available exactly when it
    /// does not require native wide arithmetic and is not an emulation-only
    /// kernel on a backend that has native wide arithmetic.
    pub open spec fn spec_available_on(self, backend: Backend) -> bool {
        &&& !self.spec_requires_native_u64()
        &&& !(self.spec_is_emulation_only() && backend.spec_has_native_u64())
    }

    /// The operations available on `backend`, ordered as in `Operation::all`.
    pub fn available_for(backend: Backend) -> (r: Vec<Operation>)
        ensures
            r@ == Operation::spec_all().filter(|op: Operation| op.spec_available_on(backend)),
            forall|op: Operation| r@.contains(op) <==> op.spec_available_on(backend),
    {
        let all = Operation::all();
        let mut r: Vec<Operation> = Vec::new();
        let mut i: usize = 0;
        while i < all.len()
            invariant
                all@ == Operation::spec_all(),
                i <= all@.len(),
                r@ == all@.take(i as int).filter(|op: Operation| op.spec_available_on(backend)),
            decreases all@.len() - i,
        {
            let op = all[i];
            proof {
                reveal(Seq::filter);
                assert(all@.take(i + 1 as int).drop_last() =~= all@.take(i as int));
                assert(all@.take(i + 1 as int).last() == op);
            }
            if !op.requires_native_u64() && !(op.is_emulation_only() && backend.has_native_u64()) {
                r.push(op);
            }
            i += 1;
        }
        proof {
            assert(all@.take(all@.len() as int) =~= all@);
            assert forall|op: Operation| r@.contains(op) <==> op.spec_available_on(backend) by {
                let f = |op: Operation| op.spec_available_on(backend);
                if op.spec_available_on(backend) {
                    let j = match op {
                        Operation::U32Add => 0int,
                        Operation::U64AddNative => 1,
                        Operation::U64AddEmulated => 2,
                        Operation::FieldMul => 3,
                        Operation::FieldAdd => 4,
                        Operation::MersenneFieldAdd => 5,
                        Operation::MersenneFieldMul => 6,
                    };
                    assert(Operation::spec_all()[j] == op);
                    Operation::spec_all().lemma_filter_contains(f, j);
                }
                if r@.contains(op) {
                    let i = choose|i: int| 0 <= i < r@.len() && r@[i] == op;
                    Operation::spec_all().lemma_filter_pred(f, i);
                }
            }
        }
        r
    }
}

} // verus!
