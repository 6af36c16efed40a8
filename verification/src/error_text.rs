//! The debug text of error categories: the variant's name, then its fields
//! by name in braces, as `derive(Debug)` writes it. Errors are counted
//! under this text.

use vstd::prelude::*;
use vstd::string::StringExecFns;
use crate::error_handling::{ErrorCategory, AlgorithmErrorKind, CircuitErrorKind, ConfigurationErrorKind, GateErrorKind, HardwareErrorKind, IOErrorKind, PerformanceErrorKind, SimulationErrorKind};
use crate::text::{decimal, decimal_spec, decimal_u64};

verus! {

/// The debug text of a string: quoted, with its special characters escaped.
pub uninterp spec fn str_debug_text(s: Seq<char>) -> Seq<char>;

/// `format!("{:?}", s)` on a string slice: std's `Debug` for `str`, which
/// quotes the text and escapes its special characters. The text is a
/// function of `s` alone, named `str_debug_text`.
#[verifier::external_body]
fn str_debug(s: &str) -> (r: String)
    ensures
        r@ == str_debug_text(s@),
{
    format!("{:?}", s)
}

/// The texts of a list of strings.
pub open spec fn texts(s: Seq<String>) -> Seq<Seq<char>> {
    s.map_values(|x: String| x@)
}

/// The parts joined with `, ` between each two.
pub open spec fn joined(parts: Seq<Seq<char>>) -> Seq<char>
    decreases parts.len(),
{
    if parts.len() == 0 {
        Seq::empty()
    } else if parts.len() == 1 {
        parts[0]
    } else {
        joined(parts.drop_last()) + ", "@ + parts.last()
    }
}

/// A variant with named fields: its name, then the fields in braces.
pub open spec fn record_text(name: Seq<char>, fields: Seq<Seq<char>>) -> Seq<char> {
    name + " { "@ + joined(fields) + " }"@
}

/// A numeric field.
pub open spec fn num_field(label: Seq<char>, n: nat) -> Seq<char> {
    label + ": "@ + decimal_spec(n)
}

/// A text field.
pub open spec fn text_field(label: Seq<char>, s: Seq<char>) -> Seq<char> {
    label + ": "@ + str_debug_text(s)
}

/// A field holding a pair of numbers.
pub open spec fn pair_field(label: Seq<char>, a: usize, b: usize) -> Seq<char> {
    label + ": "@ + "("@ + decimal_spec(a as nat) + ", "@ + decimal_spec(b as nat) + ")"@
}

/// A field holding a list of numbers.
pub open spec fn nums_field(label: Seq<char>, s: Seq<usize>) -> Seq<char> {
    label + ": "@ + "["@ + joined(s.map_values(|n: usize| decimal_spec(n as nat))) + "]"@
}

/// A field holding a list of texts.
pub open spec fn texts_field(label: Seq<char>, s: Seq<Seq<char>>) -> Seq<char> {
    label + ": "@ + "["@ + joined(s.map_values(|t: Seq<char>| str_debug_text(t))) + "]"@
}

/// Debug text of a Circuit error kind.
pub open spec fn circuit_kind_text(k: CircuitErrorKind) -> Seq<char> {
    match k {
        CircuitErrorKind::InvalidQubitIndex { qubit, max_qubits } => record_text("InvalidQubitIndex"@, seq![num_field("qubit"@, qubit as nat), num_field("max_qubits"@, max_qubits as nat)]),
        CircuitErrorKind::InvalidClbitIndex { clbit, max_clbits } => record_text("InvalidClbitIndex"@, seq![num_field("clbit"@, clbit as nat), num_field("max_clbits"@, max_clbits as nat)]),
        CircuitErrorKind::SizeMismatch { expected, actual } => record_text("SizeMismatch"@, seq![num_field("expected"@, expected as nat), num_field("actual"@, actual as nat)]),
        CircuitErrorKind::InvalidDepth { depth, max_depth } => record_text("InvalidDepth"@, seq![num_field("depth"@, depth as nat), num_field("max_depth"@, max_depth as nat)]),
        CircuitErrorKind::IncompatibleOperation { operation, reason } => record_text("IncompatibleOperation"@, seq![text_field("operation"@, operation@), text_field("reason"@, reason@)]),
        CircuitErrorKind::ValidationFailure { rule, details } => record_text("ValidationFailure"@, seq![text_field("rule"@, rule@), text_field("details"@, details@)]),
    }
}

/// Debug text of a Gate error kind.
pub open spec fn gate_kind_text(k: GateErrorKind) -> Seq<char> {
    match k {
        GateErrorKind::UnsupportedGate { gate, context } => record_text("UnsupportedGate"@, seq![text_field("gate"@, gate@), text_field("context"@, context@)]),
        GateErrorKind::InvalidParameters { gate, expected, actual } => record_text("InvalidParameters"@, seq![text_field("gate"@, gate@), num_field("expected"@, expected as nat), num_field("actual"@, actual as nat)]),
        GateErrorKind::ParameterOutOfRange { parameter, value, range } => record_text("ParameterOutOfRange"@, seq![text_field("parameter"@, parameter@), text_field("value"@, value@), text_field("range"@, range@)]),
        GateErrorKind::MatrixDimensionMismatch { expected, actual } => record_text("MatrixDimensionMismatch"@, seq![pair_field("expected"@, expected.0, expected.1), pair_field("actual"@, actual.0, actual.1)]),
        GateErrorKind::DecompositionFailure { gate, reason } => record_text("DecompositionFailure"@, seq![text_field("gate"@, gate@), text_field("reason"@, reason@)]),
    }
}

/// Debug text of a Simulation error kind.
pub open spec fn simulation_kind_text(k: SimulationErrorKind) -> Seq<char> {
    match k {
        SimulationErrorKind::StateDimensionMismatch { expected, actual } => record_text("StateDimensionMismatch"@, seq![num_field("expected"@, expected as nat), num_field("actual"@, actual as nat)]),
        SimulationErrorKind::InvalidMeasurement { qubit, reason } => record_text("InvalidMeasurement"@, seq![num_field("qubit"@, qubit as nat), text_field("reason"@, reason@)]),
        SimulationErrorKind::ConvergenceFailure { iterations, tolerance } => record_text("ConvergenceFailure"@, seq![num_field("iterations"@, iterations as nat), text_field("tolerance"@, tolerance@)]),
        SimulationErrorKind::NumericalInstability { operation, details } => record_text("NumericalInstability"@, seq![text_field("operation"@, operation@), text_field("details"@, details@)]),
        SimulationErrorKind::MemoryAllocation { requested, available } => record_text("MemoryAllocation"@, seq![num_field("requested"@, requested as nat), num_field("available"@, available as nat)]),
    }
}

/// Debug text of a Hardware error kind.
pub open spec fn hardware_kind_text(k: HardwareErrorKind) -> Seq<char> {
    match k {
        HardwareErrorKind::DeviceUnavailable { device, status } => record_text("DeviceUnavailable"@, seq![text_field("device"@, device@), text_field("status"@, status@)]),
        HardwareErrorKind::ConnectivityViolation { qubits, topology } => record_text("ConnectivityViolation"@, seq![nums_field("qubits"@, qubits@), text_field("topology"@, topology@)]),
        HardwareErrorKind::CapabilityExceeded { capability, limit, requested } => record_text("CapabilityExceeded"@, seq![text_field("capability"@, capability@), num_field("limit"@, limit as nat), num_field("requested"@, requested as nat)]),
        HardwareErrorKind::CommunicationFailure { backend, error } => record_text("CommunicationFailure"@, seq![text_field("backend"@, backend@), text_field("error"@, error@)]),
        HardwareErrorKind::JobSubmissionFailure { job_id, reason } => record_text("JobSubmissionFailure"@, seq![text_field("job_id"@, job_id@), text_field("reason"@, reason@)]),
    }
}

/// Debug text of a Algorithm error kind.
pub open spec fn algorithm_kind_text(k: AlgorithmErrorKind) -> Seq<char> {
    match k {
        AlgorithmErrorKind::ConvergenceFailure { algorithm, iterations } => record_text("ConvergenceFailure"@, seq![text_field("algorithm"@, algorithm@), num_field("iterations"@, iterations as nat)]),
        AlgorithmErrorKind::InvalidParameters { algorithm, parameter, reason } => record_text("InvalidParameters"@, seq![text_field("algorithm"@, algorithm@), text_field("parameter"@, parameter@), text_field("reason"@, reason@)]),
        AlgorithmErrorKind::NotApplicable { algorithm, problem, reason } => record_text("NotApplicable"@, seq![text_field("algorithm"@, algorithm@), text_field("problem"@, problem@), text_field("reason"@, reason@)]),
        AlgorithmErrorKind::OptimizationFailure { optimizer, objective } => record_text("OptimizationFailure"@, seq![text_field("optimizer"@, optimizer@), text_field("objective"@, objective@)]),
    }
}

/// Debug text of a Performance error kind.
pub open spec fn performance_kind_text(k: PerformanceErrorKind) -> Seq<char> {
    match k {
        PerformanceErrorKind::TimeoutExceeded { operation, timeout_ms, elapsed_ms } => record_text("TimeoutExceeded"@, seq![text_field("operation"@, operation@), num_field("timeout_ms"@, timeout_ms as nat), num_field("elapsed_ms"@, elapsed_ms as nat)]),
        PerformanceErrorKind::MemoryLimitExceeded { limit_mb, used_mb } => record_text("MemoryLimitExceeded"@, seq![num_field("limit_mb"@, limit_mb as nat), num_field("used_mb"@, used_mb as nat)]),
        PerformanceErrorKind::CpuLimitExceeded { limit_percent, used_percent } => record_text("CpuLimitExceeded"@, seq![text_field("limit_percent"@, limit_percent@), text_field("used_percent"@, used_percent@)]),
        PerformanceErrorKind::ResourceContention { resource, contenders } => record_text("ResourceContention"@, seq![text_field("resource"@, resource@), num_field("contenders"@, contenders as nat)]),
    }
}

/// Debug text of a Configuration error kind.
pub open spec fn configuration_kind_text(k: ConfigurationErrorKind) -> Seq<char> {
    match k {
        ConfigurationErrorKind::MissingConfiguration { key, section } => record_text("MissingConfiguration"@, seq![text_field("key"@, key@), text_field("section"@, section@)]),
        ConfigurationErrorKind::InvalidValue { key, value, expected } => record_text("InvalidValue"@, seq![text_field("key"@, key@), text_field("value"@, value@), text_field("expected"@, expected@)]),
        ConfigurationErrorKind::ConfigurationConflict { keys, reason } => record_text("ConfigurationConflict"@, seq![texts_field("keys"@, texts(keys@)), text_field("reason"@, reason@)]),
        ConfigurationErrorKind::VersionMismatch { expected, actual } => record_text("VersionMismatch"@, seq![text_field("expected"@, expected@), text_field("actual"@, actual@)]),
    }
}

/// Debug text of a IO error kind.
pub open spec fn io_kind_text(k: IOErrorKind) -> Seq<char> {
    match k {
        IOErrorKind::FileNotFound { path } => record_text("FileNotFound"@, seq![text_field("path"@, path@)]),
        IOErrorKind::PermissionDenied { path, operation } => record_text("PermissionDenied"@, seq![text_field("path"@, path@), text_field("operation"@, operation@)]),
        IOErrorKind::SerializationFailure { format, reason } => record_text("SerializationFailure"@, seq![text_field("format"@, format@), text_field("reason"@, reason@)]),
        IOErrorKind::DeserializationFailure { format, reason } => record_text("DeserializationFailure"@, seq![text_field("format"@, format@), text_field("reason"@, reason@)]),
        IOErrorKind::NetworkError { endpoint, error } => record_text("NetworkError"@, seq![text_field("endpoint"@, endpoint@), text_field("error"@, error@)]),
    }
}

/// The debug text of an error category, under which errors are counted.
pub open spec fn category_text(c: ErrorCategory) -> Seq<char> {
    match c {
        ErrorCategory::Circuit(k) => "Circuit("@ + circuit_kind_text(k) + ")"@,
        ErrorCategory::Gate(k) => "Gate("@ + gate_kind_text(k) + ")"@,
        ErrorCategory::Simulation(k) => "Simulation("@ + simulation_kind_text(k) + ")"@,
        ErrorCategory::Hardware(k) => "Hardware("@ + hardware_kind_text(k) + ")"@,
        ErrorCategory::Algorithm(k) => "Algorithm("@ + algorithm_kind_text(k) + ")"@,
        ErrorCategory::Performance(k) => "Performance("@ + performance_kind_text(k) + ")"@,
        ErrorCategory::Configuration(k) => "Configuration("@ + configuration_kind_text(k) + ")"@,
        ErrorCategory::IO(k) => "IO("@ + io_kind_text(k) + ")"@,
    }
}

/// The parts joined with `, ` between each two.
fn join(parts: &Vec<String>) -> (r: String)
    ensures
        r@ == joined(texts(parts@)),
{
    let mut r = String::new();
    let mut i: usize = 0;
    while i < parts.len()
        invariant
            i <= parts@.len(),
            r@ == joined(texts(parts@).take(i as int)),
        decreases parts.len() - i,
    {
        proof {
            assert(texts(parts@).take(i + 1).drop_last() =~= texts(parts@).take(i as int));
            if i == 0 {
                assert(texts(parts@).take(0) =~= Seq::<Seq<char>>::empty());
            }
        }
        if i > 0 {
            r.append(", ");
        }
        r.append(parts[i].as_str());
        proof {
            let t = texts(parts@).take(i + 1);
            assert(t.last() == parts@[i as int]@);
            if i == 0 {
                assert(r@ =~= t[0]);
            }
        }
        i = i + 1;
    }
    proof {
        assert(texts(parts@).take(i as int) =~= texts(parts@));
    }
    r
}

fn record(name: &str, fields: Vec<String>) -> (r: String)
    ensures
        r@ == record_text(name@, texts(fields@)),
{
    let mut r = String::from_str(name);
    r.append(" { ");
    let body = join(&fields);
    r.append(body.as_str());
    r.append(" }");
    r
}

fn wrapped(name: &str, inner: String) -> (r: String)
    ensures
        r@ == name@ + inner@ + ")"@,
{
    let mut r = String::from_str(name);
    r.append(inner.as_str());
    r.append(")");
    r
}

fn fields1(a: String) -> (r: Vec<String>)
    ensures
        texts(r@) == seq![a@],
{
    let r = vec![a];
    assert(texts(r@) =~= seq![a@]);
    r
}

fn fields2(a: String, b: String) -> (r: Vec<String>)
    ensures
        texts(r@) == seq![a@, b@],
{
    let r = vec![a, b];
    assert(texts(r@) =~= seq![a@, b@]);
    r
}

fn fields3(a: String, b: String, c: String) -> (r: Vec<String>)
    ensures
        texts(r@) == seq![a@, b@, c@],
{
    let r = vec![a, b, c];
    assert(texts(r@) =~= seq![a@, b@, c@]);
    r
}

fn labelled(label: &str, value: String) -> (r: String)
    ensures
        r@ == label@ + ": "@ + value@,
{
    let mut r = String::from_str(label);
    r.append(": ");
    r.append(value.as_str());
    r
}

fn num_of(label: &str, n: usize) -> (r: String)
    ensures
        r@ == num_field(label@, n as nat),
{
    labelled(label, decimal(n))
}

fn num64_of(label: &str, n: u64) -> (r: String)
    ensures
        r@ == num_field(label@, n as nat),
{
    labelled(label, decimal_u64(n))
}

fn text_of(label: &str, s: &String) -> (r: String)
    ensures
        r@ == text_field(label@, s@),
{
    labelled(label, str_debug(s.as_str()))
}

fn pair_of(label: &str, a: usize, b: usize) -> (r: String)
    ensures
        r@ == pair_field(label@, a, b),
{
    let mut t = String::from_str("(");
    t.append(decimal(a).as_str());
    t.append(", ");
    t.append(decimal(b).as_str());
    t.append(")");
    let r = labelled(label, t);
    assert(r@ =~= pair_field(label@, a, b));
    r
}

fn nums_of(label: &str, s: &Vec<usize>) -> (r: String)
    ensures
        r@ == nums_field(label@, s@),
{
    let mut parts: Vec<String> = Vec::new();
    let mut i: usize = 0;
    while i < s.len()
        invariant
            i <= s@.len(),
            parts@.len() == i,
            texts(parts@) == s@.take(i as int).map_values(|n: usize| decimal_spec(n as nat)),
        decreases s.len() - i,
    {
        let ghost before = parts@;
        let d = decimal(s[i]);
        parts.push(d);
        proof {
            let want = s@.take(i + 1).map_values(|n: usize| decimal_spec(n as nat));
            assert forall|j: int| 0 <= j <= i implies #[trigger] texts(parts@)[j] == want[j] by {
                if j < i {
                    assert(parts@[j] == before[j]);
                    assert(texts(before)[j] == s@.take(i as int).map_values(|n: usize| decimal_spec(n as nat))[j]);
                } else {
                    assert(parts@[j] == d);
                }
            }
            assert(texts(parts@) =~= want);
        }
        i = i + 1;
    }
    proof {
        assert(s@.take(i as int) =~= s@);
    }
    let mut t = String::from_str("[");
    t.append(join(&parts).as_str());
    t.append("]");
    let r = labelled(label, t);
    assert(r@ =~= nums_field(label@, s@));
    r
}

fn texts_of(label: &str, s: &Vec<String>) -> (r: String)
    ensures
        r@ == texts_field(label@, texts(s@)),
{
    let mut parts: Vec<String> = Vec::new();
    let mut i: usize = 0;
    while i < s.len()
        invariant
            i <= s@.len(),
            parts@.len() == i,
            texts(parts@) == texts(s@).take(i as int).map_values(|t: Seq<char>| str_debug_text(t)),
        decreases s.len() - i,
    {
        let ghost before = parts@;
        let d = str_debug(s[i].as_str());
        parts.push(d);
        proof {
            let want = texts(s@).take(i + 1).map_values(|t: Seq<char>| str_debug_text(t));
            assert forall|j: int| 0 <= j <= i implies #[trigger] texts(parts@)[j] == want[j] by {
                if j < i {
                    assert(parts@[j] == before[j]);
                    assert(texts(before)[j] == texts(s@).take(i as int).map_values(|t: Seq<char>| str_debug_text(t))[j]);
                } else {
                    assert(parts@[j] == d);
                    assert(texts(s@)[j] == s@[j]@);
                }
            }
            assert(texts(parts@) =~= want);
        }
        i = i + 1;
    }
    proof {
        assert(texts(s@).take(i as int) =~= texts(s@));
    }
    let mut t = String::from_str("[");
    t.append(join(&parts).as_str());
    t.append("]");
    let r = labelled(label, t);
    assert(r@ =~= texts_field(label@, texts(s@)));
    r
}

fn circuit_kind_of(k: &CircuitErrorKind) -> (r: String)
    ensures
        r@ == circuit_kind_text(*k),
{
    match k {
        CircuitErrorKind::InvalidQubitIndex { qubit, max_qubits } => record("InvalidQubitIndex", fields2(num_of("qubit", *qubit), num_of("max_qubits", *max_qubits))),
        CircuitErrorKind::InvalidClbitIndex { clbit, max_clbits } => record("InvalidClbitIndex", fields2(num_of("clbit", *clbit), num_of("max_clbits", *max_clbits))),
        CircuitErrorKind::SizeMismatch { expected, actual } => record("SizeMismatch", fields2(num_of("expected", *expected), num_of("actual", *actual))),
        CircuitErrorKind::InvalidDepth { depth, max_depth } => record("InvalidDepth", fields2(num_of("depth", *depth), num_of("max_depth", *max_depth))),
        CircuitErrorKind::IncompatibleOperation { operation, reason } => record("IncompatibleOperation", fields2(text_of("operation", operation), text_of("reason", reason))),
        CircuitErrorKind::ValidationFailure { rule, details } => record("ValidationFailure", fields2(text_of("rule", rule), text_of("details", details))),
    }
}

fn gate_kind_of(k: &GateErrorKind) -> (r: String)
    ensures
        r@ == gate_kind_text(*k),
{
    match k {
        GateErrorKind::UnsupportedGate { gate, context } => record("UnsupportedGate", fields2(text_of("gate", gate), text_of("context", context))),
        GateErrorKind::InvalidParameters { gate, expected, actual } => record("InvalidParameters", fields3(text_of("gate", gate), num_of("expected", *expected), num_of("actual", *actual))),
        GateErrorKind::ParameterOutOfRange { parameter, value, range } => record("ParameterOutOfRange", fields3(text_of("parameter", parameter), text_of("value", value), text_of("range", range))),
        GateErrorKind::MatrixDimensionMismatch { expected, actual } => record("MatrixDimensionMismatch", fields2(pair_of("expected", expected.0, expected.1), pair_of("actual", actual.0, actual.1))),
        GateErrorKind::DecompositionFailure { gate, reason } => record("DecompositionFailure", fields2(text_of("gate", gate), text_of("reason", reason))),
    }
}

fn simulation_kind_of(k: &SimulationErrorKind) -> (r: String)
    ensures
        r@ == simulation_kind_text(*k),
{
    match k {
        SimulationErrorKind::StateDimensionMismatch { expected, actual } => record("StateDimensionMismatch", fields2(num_of("expected", *expected), num_of("actual", *actual))),
        SimulationErrorKind::InvalidMeasurement { qubit, reason } => record("InvalidMeasurement", fields2(num_of("qubit", *qubit), text_of("reason", reason))),
        SimulationErrorKind::ConvergenceFailure { iterations, tolerance } => record("ConvergenceFailure", fields2(num_of("iterations", *iterations), text_of("tolerance", tolerance))),
        SimulationErrorKind::NumericalInstability { operation, details } => record("NumericalInstability", fields2(text_of("operation", operation), text_of("details", details))),
        SimulationErrorKind::MemoryAllocation { requested, available } => record("MemoryAllocation", fields2(num_of("requested", *requested), num_of("available", *available))),
    }
}

fn hardware_kind_of(k: &HardwareErrorKind) -> (r: String)
    ensures
        r@ == hardware_kind_text(*k),
{
    match k {
        HardwareErrorKind::DeviceUnavailable { device, status } => record("DeviceUnavailable", fields2(text_of("device", device), text_of("status", status))),
        HardwareErrorKind::ConnectivityViolation { qubits, topology } => record("ConnectivityViolation", fields2(nums_of("qubits", qubits), text_of("topology", topology))),
        HardwareErrorKind::CapabilityExceeded { capability, limit, requested } => record("CapabilityExceeded", fields3(text_of("capability", capability), num_of("limit", *limit), num_of("requested", *requested))),
        HardwareErrorKind::CommunicationFailure { backend, error } => record("CommunicationFailure", fields2(text_of("backend", backend), text_of("error", error))),
        HardwareErrorKind::JobSubmissionFailure { job_id, reason } => record("JobSubmissionFailure", fields2(text_of("job_id", job_id), text_of("reason", reason))),
    }
}

fn algorithm_kind_of(k: &AlgorithmErrorKind) -> (r: String)
    ensures
        r@ == algorithm_kind_text(*k),
{
    match k {
        AlgorithmErrorKind::ConvergenceFailure { algorithm, iterations } => record("ConvergenceFailure", fields2(text_of("algorithm", algorithm), num_of("iterations", *iterations))),
        AlgorithmErrorKind::InvalidParameters { algorithm, parameter, reason } => record("InvalidParameters", fields3(text_of("algorithm", algorithm), text_of("parameter", parameter), text_of("reason", reason))),
        AlgorithmErrorKind::NotApplicable { algorithm, problem, reason } => record("NotApplicable", fields3(text_of("algorithm", algorithm), text_of("problem", problem), text_of("reason", reason))),
        AlgorithmErrorKind::OptimizationFailure { optimizer, objective } => record("OptimizationFailure", fields2(text_of("optimizer", optimizer), text_of("objective", objective))),
    }
}

fn performance_kind_of(k: &PerformanceErrorKind) -> (r: String)
    ensures
        r@ == performance_kind_text(*k),
{
    match k {
        PerformanceErrorKind::TimeoutExceeded { operation, timeout_ms, elapsed_ms } => record("TimeoutExceeded", fields3(text_of("operation", operation), num64_of("timeout_ms", *timeout_ms), num64_of("elapsed_ms", *elapsed_ms))),
        PerformanceErrorKind::MemoryLimitExceeded { limit_mb, used_mb } => record("MemoryLimitExceeded", fields2(num_of("limit_mb", *limit_mb), num_of("used_mb", *used_mb))),
        PerformanceErrorKind::CpuLimitExceeded { limit_percent, used_percent } => record("CpuLimitExceeded", fields2(text_of("limit_percent", limit_percent), text_of("used_percent", used_percent))),
        PerformanceErrorKind::ResourceContention { resource, contenders } => record("ResourceContention", fields2(text_of("resource", resource), num_of("contenders", *contenders))),
    }
}

fn configuration_kind_of(k: &ConfigurationErrorKind) -> (r: String)
    ensures
        r@ == configuration_kind_text(*k),
{
    match k {
        ConfigurationErrorKind::MissingConfiguration { key, section } => record("MissingConfiguration", fields2(text_of("key", key), text_of("section", section))),
        ConfigurationErrorKind::InvalidValue { key, value, expected } => record("InvalidValue", fields3(text_of("key", key), text_of("value", value), text_of("expected", expected))),
        ConfigurationErrorKind::ConfigurationConflict { keys, reason } => record("ConfigurationConflict", fields2(texts_of("keys", keys), text_of("reason", reason))),
        ConfigurationErrorKind::VersionMismatch { expected, actual } => record("VersionMismatch", fields2(text_of("expected", expected), text_of("actual", actual))),
    }
}

fn io_kind_of(k: &IOErrorKind) -> (r: String)
    ensures
        r@ == io_kind_text(*k),
{
    match k {
        IOErrorKind::FileNotFound { path } => record("FileNotFound", fields1(text_of("path", path))),
        IOErrorKind::PermissionDenied { path, operation } => record("PermissionDenied", fields2(text_of("path", path), text_of("operation", operation))),
        IOErrorKind::SerializationFailure { format, reason } => record("SerializationFailure", fields2(text_of("format", format), text_of("reason", reason))),
        IOErrorKind::DeserializationFailure { format, reason } => record("DeserializationFailure", fields2(text_of("format", format), text_of("reason", reason))),
        IOErrorKind::NetworkError { endpoint, error } => record("NetworkError", fields2(text_of("endpoint", endpoint), text_of("error", error))),
    }
}

/// The debug text of an error category, under which errors are counted
pub fn category_debug_text(c: &ErrorCategory) -> (r: String)
    ensures
        r@ == category_text(*c),
{
    match c {
        ErrorCategory::Circuit(k) => wrapped("Circuit(", circuit_kind_of(k)),
        ErrorCategory::Gate(k) => wrapped("Gate(", gate_kind_of(k)),
        ErrorCategory::Simulation(k) => wrapped("Simulation(", simulation_kind_of(k)),
        ErrorCategory::Hardware(k) => wrapped("Hardware(", hardware_kind_of(k)),
        ErrorCategory::Algorithm(k) => wrapped("Algorithm(", algorithm_kind_of(k)),
        ErrorCategory::Performance(k) => wrapped("Performance(", performance_kind_of(k)),
        ErrorCategory::Configuration(k) => wrapped("Configuration(", configuration_kind_of(k)),
        ErrorCategory::IO(k) => wrapped("IO(", io_kind_of(k)),
    }
}

} // verus!
