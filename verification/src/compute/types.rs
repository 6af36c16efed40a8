//! Kinds of compute backends, execution hints, backend selection and the
//! measurement counts that an execution returns.

use vstd::prelude::*;
use vstd::string::StringExecFns;
use crate::circuit::QuantumCircuit;
use crate::easy_api::is_last_maximum;

verus! {

/// GPU types
#[derive(Debug, Clone, Copy, PartialEq, Eq, Hash, Structural)]
pub enum GpuType {
    /// NVIDIA CUDA
    CUDA,
    /// OpenCL
    OpenCL,
    /// WebGPU compute shaders
    ComputeShader,
    /// Apple Metal
    Metal,
}

/// Local backend variants
#[derive(Debug, Clone, Copy, PartialEq, Eq, Hash, Structural)]
pub enum LocalBackendVariant {
    /// Pure CPU (single-threaded)
    CPU,
    /// SIMD-accelerated (AVX2/NEON)
    SIMD,
    /// Multi-threaded parallel execution
    Parallel,
    /// GPU-accelerated
    GPU(GpuType),
}

/// Cloud backend variants
#[derive(Debug, Clone, Copy, PartialEq, Eq, Hash, Structural)]
pub enum CloudBackendVariant {
    /// IBM Quantum
    IBMQuantum,
    /// AWS Braket
    AWSBraket,
    /// Azure Quantum
    AzureQuantum,
    /// Google Quantum AI
    GoogleQuantum,
}

/// Type of compute backend
#[derive(Debug, Clone, Copy, PartialEq, Eq, Hash, Structural)]
pub enum ComputeBackendType {
    /// Local computation on CPU/GPU
    Local(LocalBackendVariant),
    /// Cloud quantum computing service
    Cloud(CloudBackendVariant),
}

/// Text of a GPU type.
pub open spec fn gpu_text(g: GpuType) -> Seq<char> {
    match g {
        GpuType::CUDA => "cuda"@,
        GpuType::OpenCL => "opencl"@,
        GpuType::ComputeShader => "compute_shader"@,
        GpuType::Metal => "metal"@,
    }
}

/// Text of a local backend variant.
pub open spec fn local_text(v: LocalBackendVariant) -> Seq<char> {
    match v {
        LocalBackendVariant::CPU => "cpu"@,
        LocalBackendVariant::SIMD => "simd"@,
        LocalBackendVariant::Parallel => "parallel"@,
        LocalBackendVariant::GPU(g) => "gpu_"@ + gpu_text(g),
    }
}

/// Text of a cloud backend variant.
pub open spec fn cloud_text(v: CloudBackendVariant) -> Seq<char> {
    match v {
        CloudBackendVariant::IBMQuantum => "ibm_quantum"@,
        CloudBackendVariant::AWSBraket => "aws_braket"@,
        CloudBackendVariant::AzureQuantum => "azure_quantum"@,
        CloudBackendVariant::GoogleQuantum => "google_quantum"@,
    }
}

/// Text of a backend type.
pub open spec fn backend_text(t: ComputeBackendType) -> Seq<char> {
    match t {
        ComputeBackendType::Local(v) => "local:"@ + local_text(v),
        ComputeBackendType::Cloud(v) => "cloud:"@ + cloud_text(v),
    }
}

impl GpuType {
    fn name(&self) -> (r: &'static str)
        ensures
            r@ == gpu_text(*self),
    {
        match self {
            GpuType::CUDA => "cuda",
            GpuType::OpenCL => "opencl",
            GpuType::ComputeShader => "compute_shader",
            GpuType::Metal => "metal",
        }
    }

    /// Text form of the GPU type
    pub fn to_string(&self) -> (r: String)
        ensures
            r@ == gpu_text(*self),
    {
        String::from_str(self.name())
    }
}

impl LocalBackendVariant {
    /// Text form of the variant
    pub fn to_string(&self) -> (r: String)
        ensures
            r@ == local_text(*self),
    {
        match self {
            LocalBackendVariant::CPU => String::from_str("cpu"),
            LocalBackendVariant::SIMD => String::from_str("simd"),
            LocalBackendVariant::Parallel => String::from_str("parallel"),
            LocalBackendVariant::GPU(g) => {
                let mut s = String::from_str("gpu_");
                s.append(g.name());
                s
            },
        }
    }
}

impl CloudBackendVariant {
    fn name(&self) -> (r: &'static str)
        ensures
            r@ == cloud_text(*self),
    {
        match self {
            CloudBackendVariant::IBMQuantum => "ibm_quantum",
            CloudBackendVariant::AWSBraket => "aws_braket",
            CloudBackendVariant::AzureQuantum => "azure_quantum",
            CloudBackendVariant::GoogleQuantum => "google_quantum",
        }
    }

    /// Text form of the variant
    pub fn to_string(&self) -> (r: String)
        ensures
            r@ == cloud_text(*self),
    {
        String::from_str(self.name())
    }
}

impl ComputeBackendType {
    /// Text form of the backend type, such as `local:gpu_cuda` or `cloud:aws_braket`
    pub fn to_string(&self) -> (r: String)
        ensures
            r@ == backend_text(*self),
    {
        match self {
            ComputeBackendType::Local(v) => {
                let mut s = String::from_str("local:");
                let t = v.to_string();
                s.append(t.as_str());
                s
            },
            ComputeBackendType::Cloud(v) => {
                let mut s = String::from_str("cloud:");
                s.append(v.name());
                s
            },
        }
    }
}

/// Performance profile of a compute backend
#[derive(Debug, Clone)]
pub struct PerformanceProfile {
    /// Maximum number of qubits supported
    pub max_qubits: usize,
    /// Encoded (IEEE-754 binary64) estimated operations per second
    pub ops_per_second: u64,
    /// Encoded startup overhead in milliseconds
    pub startup_overhead_ms: u64,
    /// Memory overhead per qubit (bytes)
    pub memory_per_qubit_bytes: usize,
    /// Whether the backend supports batching
    pub supports_batching: bool,
    /// Optimal batch size (if batching supported)
    pub optimal_batch_size: Option<usize>,
}

/// Encoding of one million operations per second, 1e6.
pub const MILLION_BITS: u64 = 0x412e848000000000u64;

impl Default for PerformanceProfile {
    fn default() -> (r: Self)
        ensures
            r.max_qubits == 25,
            r.ops_per_second == MILLION_BITS,
            r.startup_overhead_ms == 0,
            r.memory_per_qubit_bytes == 16,
            !r.supports_batching,
            r.optimal_batch_size is None,
    {
        PerformanceProfile {
            max_qubits: 25,
            ops_per_second: MILLION_BITS,
            startup_overhead_ms: 0,
            memory_per_qubit_bytes: 16,
            supports_batching: false,
            optimal_batch_size: None,
        }
    }
}

/// Precision requirement
#[derive(Debug, Clone, Copy, PartialEq, Eq, Structural)]
pub enum Precision {
    /// Low precision (faster)
    Low,
    /// Medium precision
    Medium,
    /// High precision (slower)
    High,
}

impl Default for Precision {
    fn default() -> (r: Self)
        ensures
            r == Precision::Medium,
    {
        Precision::Medium
    }
}

/// Execution hints for backend selection
#[derive(Debug, Clone)]
pub struct ExecutionHints {
    /// Prefer cloud backend
    pub prefer_cloud: bool,
    /// Maximum acceptable latency in milliseconds
    pub max_latency_ms: Option<u64>,
    /// Precision requirement
    pub precision: Precision,
    /// Allow GPU acceleration
    pub allow_gpu: bool,
    /// Prefer specific backend by name
    pub prefer_backend: Option<String>,
}

impl Default for ExecutionHints {
    fn default() -> (r: Self)
        ensures
            !r.prefer_cloud,
            r.max_latency_ms is None,
            r.precision == Precision::Medium,
            !r.allow_gpu,
            r.prefer_backend is None,
    {
        ExecutionHints {
            prefer_cloud: false,
            max_latency_ms: None,
            precision: Precision::Medium,
            allow_gpu: false,
            prefer_backend: None,
        }
    }
}

/// Backend selection strategy
#[derive(Debug, Clone, PartialEq, Eq)]
pub enum SelectionStrategy {
    /// Manually specify backend name
    Manual(String),
    /// Automatically select based on circuit properties
    Auto,
    /// Run benchmarks and select fastest
    Benchmark,
}

impl Default for SelectionStrategy {
    fn default() -> (r: Self)
        ensures
            r is Auto,
    {
        SelectionStrategy::Auto
    }
}

/// Whether a backend with the given performance profile can run a circuit:
/// the circuit has no more qubits than the profile supports
pub fn is_compatible(profile: &PerformanceProfile, circuit: &QuantumCircuit) -> (r: bool)
    ensures
        r == (circuit@.num_qubits <= profile.max_qubits),
{
    circuit.num_qubits() <= profile.max_qubits
}

/// Execution result from a compute backend: the count of each measured
/// basis state (each state listed once, in order of first measurement).
#[derive(Debug, Clone)]
pub struct ExecutionResult {
    /// Measurement counts (basis state, count)
    pub counts: Vec<(String, usize)>,
    /// Total number of shots
    pub shots: usize,
    /// Backend used for execution
    pub backend_used: String,
    /// Execution time in milliseconds (binary64 encoding)
    pub execution_time_ms: u64,
    /// Additional metadata (key, value)
    pub metadata: Vec<(String, String)>,
}

/// The states and counts of a list of measurement counts.
pub open spec fn count_views(c: Seq<(String, usize)>) -> Seq<(Seq<char>, nat)> {
    c.map_values(|e: (String, usize)| (e.0@, e.1 as nat))
}

/// Position of the first entry for `state`, or -1.
pub open spec fn state_index(c: Seq<(Seq<char>, nat)>, state: Seq<char>) -> int
    decreases c.len(),
{
    if c.len() == 0 {
        -1
    } else {
        let k = state_index(c.drop_last(), state);
        if k >= 0 {
            k
        } else if c.last().0 == state {
            c.len() - 1
        } else {
            -1
        }
    }
}

/// How often `state` was measured.
pub open spec fn count_of(c: Seq<(Seq<char>, nat)>, state: Seq<char>) -> nat {
    let k = state_index(c, state);
    if k >= 0 {
        c[k].1
    } else {
        0
    }
}

/// The counts after one more measurement of `state`.
pub open spec fn measured(c: Seq<(Seq<char>, nat)>, state: Seq<char>) -> Seq<(Seq<char>, nat)> {
    let k = state_index(c, state);
    if k >= 0 {
        c.update(k, (state, c[k].1 + 1))
    } else {
        c.push((state, 1))
    }
}

/// The first entry for a state holds it and comes before any other.
proof fn lemma_state_index(c: Seq<(Seq<char>, nat)>, state: Seq<char>)
    ensures
        -1 <= state_index(c, state) < c.len(),
        state_index(c, state) >= 0 ==> c[state_index(c, state)].0 == state,
        forall|j: int|
            0 <= j < c.len() && (state_index(c, state) == -1 || j < state_index(c, state)) ==> c[j].0 != state,
    decreases c.len(),
{
    if c.len() > 0 {
        lemma_state_index(c.drop_last(), state);
        assert forall|j: int|
            0 <= j < c.len() && (state_index(c, state) == -1 || j < state_index(c, state)) implies c[j].0
            != state by {
            if j < c.len() - 1 {
                assert(c[j] == c.drop_last()[j]);
            }
        }
    }
}

/// Count one more occurrence of `key`: its entry goes up by one, or is
/// appended with a count of one
pub fn add_count(counts: &mut Vec<(String, usize)>, key: String)
    requires
        count_of(count_views(old(counts)@), key@) < usize::MAX,
    ensures
        count_views(final(counts)@) == measured(count_views(old(counts)@), key@),
{
    let ghost c = count_views(counts@);
    proof {
        lemma_state_index(c, key@);
    }
    let mut i: usize = 0;
    while i < counts.len()
        invariant
            i <= counts@.len(),
            *counts == *old(counts),
            c == count_views(counts@),
            count_of(c, key@) < usize::MAX,
            -1 <= state_index(c, key@) < c.len(),
            state_index(c, key@) >= 0 ==> c[state_index(c, key@)].0 == key@,
            forall|j: int|
                0 <= j < c.len() && (state_index(c, key@) == -1 || j < state_index(c, key@)) ==> c[j].0 != key@,
            forall|j: int| 0 <= j < i ==> c[j].0 != key@,
        decreases counts.len() - i,
    {
        if counts[i].0 == key {
            assert(c[i as int].0 == key@);
            assert(state_index(c, key@) == i as int);
            let n = counts[i].1;
            assert(n == c[i as int].1);
            counts.set(i, (key, n + 1));
            assert(count_views(counts@) =~= measured(c, key@));
            return;
        }
        i = i + 1;
    }
    assert(state_index(c, key@) == -1);
    counts.push((key, 1));
    assert(count_views(counts@) =~= measured(c, key@));
}

impl ExecutionResult {
    /// Create an empty execution result
    pub fn new(backend_name: String, shots: usize) -> (r: Self)
        ensures
            r.counts@.len() == 0,
            r.shots == shots,
            r.backend_used@ == backend_name@,
            r.execution_time_ms == 0,
            r.metadata@.len() == 0,
    {
        ExecutionResult { counts: Vec::new(), shots, backend_used: backend_name, execution_time_ms: 0, metadata: Vec::new() }
    }

    /// Record one more measurement of `state`
    pub fn add_measurement(&mut self, state: String)
        requires
            count_of(count_views(old(self).counts@), state@) < usize::MAX,
        ensures
            count_views(final(self).counts@) == measured(count_views(old(self).counts@), state@),
            final(self).shots == old(self).shots,
            final(self).backend_used == old(self).backend_used,
            final(self).execution_time_ms == old(self).execution_time_ms,
            final(self).metadata == old(self).metadata,
    {
        add_count(&mut self.counts, state);
    }

    /// How often `state` was measured
    pub fn count(&self, state: &str) -> (r: usize)
        ensures
            r == count_of(count_views(self.counts@), state@),
    {
        let ghost c = count_views(self.counts@);
        proof {
            lemma_state_index(c, state@);
        }
        let key = String::from_str(state);
        let mut i: usize = 0;
        while i < self.counts.len()
            invariant
                i <= self.counts@.len(),
                c == count_views(self.counts@),
                key@ == state@,
                -1 <= state_index(c, state@) < c.len(),
                state_index(c, state@) >= 0 ==> c[state_index(c, state@)].0 == state@,
                forall|j: int|
                    0 <= j < c.len() && (state_index(c, state@) == -1 || j < state_index(c, state@)) ==> c[j].0
                        != state@,
                forall|j: int| 0 <= j < i ==> c[j].0 != state@,
            decreases self.counts.len() - i,
        {
            if self.counts[i].0 == key {
                assert(c[i as int].0 == state@);
                assert(state_index(c, state@) == i as int);
                return self.counts[i].1;
            }
            i = i + 1;
        }
        0
    }

    /// The most measured state with its count (the last listed among equal
    /// counts); none before any measurement
    pub fn most_likely(&self) -> (r: Option<(String, usize)>)
        ensures
            match r {
                Some((s, n)) => exists|i: int|
                    is_last_maximum(self.counts@, i) && s@ == self.counts@[i].0@ && n == self.counts@[i].1,
                None => self.counts@.len() == 0,
            },
    {
        if self.counts.len() == 0 {
            return None;
        }
        let mut best: usize = 0;
        let mut i: usize = 1;
        while i < self.counts.len()
            invariant
                1 <= i <= self.counts@.len(),
                best < i,
                forall|j: int| 0 <= j < i ==> #[trigger] self.counts@[j].1 <= self.counts@[best as int].1,
                forall|j: int| best < j < i ==> #[trigger] self.counts@[j].1 < self.counts@[best as int].1,
            decreases self.counts.len() - i,
        {
            if self.counts[i].1 >= self.counts[best].1 {
                best = i;
            }
            i = i + 1;
        }
        let s = self.counts[best].0.clone();
        assert(is_last_maximum(self.counts@, best as int));
        Some((s, self.counts[best].1))
    }
}

/// One more measurement of a state raises its count by one and leaves the
/// count of every other state as it was.
pub proof fn law_measurement_counts(c: Seq<(Seq<char>, nat)>, state: Seq<char>, other: Seq<char>)
    ensures
        count_of(measured(c, state), state) == count_of(c, state) + 1,
        other != state ==> count_of(measured(c, state), other) == count_of(c, other),
{
    lemma_state_index(c, state);
    lemma_state_index(c, other);
    lemma_measured_index(c, state, state);
    lemma_measured_index(c, state, other);
}

/// Where states stand after one more measurement of `state`: the entry of
/// `state` stays or is appended; every other state keeps its position.
proof fn lemma_measured_index(c: Seq<(Seq<char>, nat)>, state: Seq<char>, s: Seq<char>)
    ensures
        state_index(measured(c, state), s) == (if state_index(c, s) >= 0 {
            state_index(c, s)
        } else if s == state {
            c.len() as int
        } else {
            -1
        }),
{
    let m = measured(c, state);
    lemma_state_index(c, state);
    lemma_state_index(c, s);
    let k = state_index(c, state);
    if k >= 0 {
        lemma_index_same_names(c, m, s);
    } else {
        assert(m.drop_last() =~= c);
    }
}

/// Sequences with the same states at the same positions find a state at
/// the same position.
proof fn lemma_index_same_names(a: Seq<(Seq<char>, nat)>, b: Seq<(Seq<char>, nat)>, s: Seq<char>)
    requires
        a.len() == b.len(),
        forall|j: int| 0 <= j < a.len() ==> #[trigger] a[j].0 == b[j].0,
    ensures
        state_index(a, s) == state_index(b, s),
    decreases a.len(),
{
    if a.len() > 0 {
        lemma_index_same_names(a.drop_last(), b.drop_last(), s);
    }
}

} // verus!
