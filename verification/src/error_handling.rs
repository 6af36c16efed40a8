//! Classification of errors: categories and kinds, severities, recovery
//! strategies, the context recorded with an error, and the handler that
//! counts errors and chooses how to recover from them.

use vstd::prelude::*;
use vstd::string::StringExecFns;
use std::collections::HashMap;
use crate::compute::simd_two_qubit_gates::SIGN;
use crate::compute::types::{add_count, count_of, count_views, measured};
use crate::deoptimization::temporal::MAGNITUDE_BITS;
use crate::clock::{clock_nanos, NANOS_PER_SECOND};
use crate::error::{MyQuatError, Result};
use crate::error_text::{category_debug_text, category_text};
use crate::gates::is_nan_bits;

verus! {

/// Circuit-related error kinds
#[derive(Debug, Clone, PartialEq, Eq)]
pub enum CircuitErrorKind {
    /// Invalid qubit index
    InvalidQubitIndex { qubit: usize, max_qubits: usize },
    /// Invalid classical bit index
    InvalidClbitIndex { clbit: usize, max_clbits: usize },
    /// Circuit size mismatch
    SizeMismatch { expected: usize, actual: usize },
    /// Invalid circuit depth
    InvalidDepth { depth: usize, max_depth: usize },
    /// Incompatible circuit operations
    IncompatibleOperation { operation: String, reason: String },
    /// Circuit validation failure
    ValidationFailure { rule: String, details: String },
}

/// Gate operation error kinds
#[derive(Debug, PartialEq, Eq)]
pub enum GateErrorKind {
    /// Unsupported gate type
    UnsupportedGate { gate: String, context: String },
    /// Invalid gate parameters
    InvalidParameters { gate: String, expected: usize, actual: usize },
    /// Parameter value out of range
    ParameterOutOfRange { parameter: String, value: String, range: String },
    /// Gate matrix dimension mismatch
    MatrixDimensionMismatch { expected: (usize, usize), actual: (usize, usize) },
    /// Gate decomposition failure
    DecompositionFailure { gate: String, reason: String },
}

impl Clone for GateErrorKind {
    fn clone(&self) -> (r: Self) {
        match self {
            GateErrorKind::UnsupportedGate { gate, context } => GateErrorKind::UnsupportedGate {
                gate: gate.clone(),
                context: context.clone(),
            },
            GateErrorKind::InvalidParameters { gate, expected, actual } => GateErrorKind::InvalidParameters {
                gate: gate.clone(),
                expected: *expected,
                actual: *actual,
            },
            GateErrorKind::ParameterOutOfRange { parameter, value, range } => GateErrorKind::ParameterOutOfRange {
                parameter: parameter.clone(),
                value: value.clone(),
                range: range.clone(),
            },
            GateErrorKind::MatrixDimensionMismatch { expected, actual } => GateErrorKind::MatrixDimensionMismatch {
                expected: (expected.0, expected.1),
                actual: (actual.0, actual.1),
            },
            GateErrorKind::DecompositionFailure { gate, reason } => GateErrorKind::DecompositionFailure {
                gate: gate.clone(),
                reason: reason.clone(),
            },
        }
    }
}

/// Simulation error kinds
#[derive(Debug, Clone, PartialEq, Eq)]
pub enum SimulationErrorKind {
    /// State vector dimension mismatch
    StateDimensionMismatch { expected: usize, actual: usize },
    /// Measurement on invalid qubit
    InvalidMeasurement { qubit: usize, reason: String },
    /// Simulation convergence failure
    ConvergenceFailure { iterations: usize, tolerance: String },
    /// Numerical instability
    NumericalInstability { operation: String, details: String },
    /// Memory allocation failure
    MemoryAllocation { requested: usize, available: usize },
}

/// Hardware and backend error kinds
#[derive(Debug, Clone, PartialEq, Eq)]
pub enum HardwareErrorKind {
    /// Device not available
    DeviceUnavailable { device: String, status: String },
    /// Connectivity constraint violation
    ConnectivityViolation { qubits: Vec<usize>, topology: String },
    /// Hardware capability exceeded
    CapabilityExceeded { capability: String, limit: usize, requested: usize },
    /// Backend communication failure
    CommunicationFailure { backend: String, error: String },
    /// Job submission failure
    JobSubmissionFailure { job_id: String, reason: String },
}

/// Algorithm-specific error kinds
#[derive(Debug, Clone, PartialEq, Eq)]
pub enum AlgorithmErrorKind {
    /// Algorithm convergence failure
    ConvergenceFailure { algorithm: String, iterations: usize },
    /// Invalid algorithm parameters
    InvalidParameters { algorithm: String, parameter: String, reason: String },
    /// Algorithm not applicable
    NotApplicable { algorithm: String, problem: String, reason: String },
    /// Optimization failure
    OptimizationFailure { optimizer: String, objective: String },
}

/// Performance and resource error kinds
#[derive(Debug, Clone, PartialEq, Eq)]
pub enum PerformanceErrorKind {
    /// Timeout exceeded
    TimeoutExceeded { operation: String, timeout_ms: u64, elapsed_ms: u64 },
    /// Memory limit exceeded
    MemoryLimitExceeded { limit_mb: usize, used_mb: usize },
    /// CPU limit exceeded
    CpuLimitExceeded { limit_percent: String, used_percent: String },
    /// Resource contention
    ResourceContention { resource: String, contenders: usize },
}

/// Configuration and parameter error kinds
#[derive(Debug, Clone, PartialEq, Eq)]
pub enum ConfigurationErrorKind {
    /// Missing required configuration
    MissingConfiguration { key: String, section: String },
    /// Invalid configuration value
    InvalidValue { key: String, value: String, expected: String },
    /// Configuration conflict
    ConfigurationConflict { keys: Vec<String>, reason: String },
    /// Version mismatch
    VersionMismatch { expected: String, actual: String },
}

/// I/O and serialization error kinds
#[derive(Debug, Clone, PartialEq, Eq)]
pub enum IOErrorKind {
    /// File not found
    FileNotFound { path: String },
    /// Permission denied
    PermissionDenied { path: String, operation: String },
    /// Serialization failure
    SerializationFailure { format: String, reason: String },
    /// Deserialization failure
    DeserializationFailure { format: String, reason: String },
    /// Network error
    NetworkError { endpoint: String, error: String },
}

/// Error categories with their specific kinds
#[derive(Debug, Clone, PartialEq, Eq)]
pub enum ErrorCategory {
    /// Circuit construction and manipulation errors
    Circuit(CircuitErrorKind),
    /// Quantum gate operation errors
    Gate(GateErrorKind),
    /// Simulation and execution errors
    Simulation(SimulationErrorKind),
    /// Hardware and backend errors
    Hardware(HardwareErrorKind),
    /// Algorithm-specific errors
    Algorithm(AlgorithmErrorKind),
    /// Performance and resource errors
    Performance(PerformanceErrorKind),
    /// Configuration and parameter errors
    Configuration(ConfigurationErrorKind),
    /// I/O and serialization errors
    IO(IOErrorKind),
}

/// Error severity levels, from least to most severe
#[derive(Debug, Clone, Copy, PartialEq, Eq, PartialOrd, Ord)]
pub enum ErrorSeverity {
    /// Informational - operation can continue
    Info,
    /// Warning - potential issue but operation can continue
    Warning,
    /// Error - operation failed but system is stable
    Error,
    /// Critical - system stability may be compromised
    Critical,
    /// Fatal - system cannot continue
    Fatal,
}

/// Position of a severity in the order from least to most severe.
pub open spec fn severity_rank(s: ErrorSeverity) -> nat {
    match s {
        ErrorSeverity::Info => 0,
        ErrorSeverity::Warning => 1,
        ErrorSeverity::Error => 2,
        ErrorSeverity::Critical => 3,
        ErrorSeverity::Fatal => 4,
    }
}

/// Upper-case text of a severity.
pub open spec fn severity_text(s: ErrorSeverity) -> Seq<char> {
    match s {
        ErrorSeverity::Info => "INFO"@,
        ErrorSeverity::Warning => "WARNING"@,
        ErrorSeverity::Error => "ERROR"@,
        ErrorSeverity::Critical => "CRITICAL"@,
        ErrorSeverity::Fatal => "FATAL"@,
    }
}

impl ErrorSeverity {
    /// Position in the order from least (0) to most (4) severe
    pub fn rank(&self) -> (r: u8)
        ensures
            r == severity_rank(*self),
    {
        match self {
            ErrorSeverity::Info => 0,
            ErrorSeverity::Warning => 1,
            ErrorSeverity::Error => 2,
            ErrorSeverity::Critical => 3,
            ErrorSeverity::Fatal => 4,
        }
    }

    /// Upper-case text of the severity
    pub fn to_string(&self) -> (r: String)
        ensures
            r@ == severity_text(*self),
    {
        match self {
            ErrorSeverity::Info => String::from_str("INFO"),
            ErrorSeverity::Warning => String::from_str("WARNING"),
            ErrorSeverity::Error => String::from_str("ERROR"),
            ErrorSeverity::Critical => String::from_str("CRITICAL"),
            ErrorSeverity::Fatal => String::from_str("FATAL"),
        }
    }
}

/// Error location information
#[derive(Debug, Clone)]
pub struct ErrorLocation {
    /// Source file where error occurred
    pub file: String,
    /// Line number in source file
    pub line: u32,
    /// Function or method name
    pub function: String,
}

/// Error context information
#[derive(Debug, Clone)]
pub struct ErrorContext {
    /// Error category and specific kind
    pub category: ErrorCategory,
    /// Human-readable error message
    pub message: String,
    /// Additional context data
    pub context: HashMap<String, String>,
    /// Error location information
    pub location: Option<ErrorLocation>,
    /// Suggested recovery actions
    pub recovery_suggestions: Vec<String>,
    /// Error severity level
    pub severity: ErrorSeverity,
    /// Timestamp when error occurred
    pub timestamp: String,
}

/// Types of recovery strategies
#[derive(Debug, Clone, Copy, PartialEq, Eq, Structural)]
pub enum RecoveryStrategyType {
    /// Retry with backoff
    Retry,
    /// Use fallback approach
    Fallback,
    /// Graceful degradation
    Degrade,
    /// Skip operation
    Skip,
    /// Abort with cleanup
    Abort,
}

/// Recovery action result
#[derive(Debug, Clone)]
pub enum RecoveryAction {
    /// Retry the operation
    Retry { max_attempts: usize, delay_ms: u64 },
    /// Use fallback approach
    Fallback { approach: String, data: HashMap<String, String> },
    /// Graceful degradation
    Degrade { level: String, capabilities: Vec<String> },
    /// Skip operation
    Skip { reason: String },
    /// Abort with cleanup
    Abort { cleanup_actions: Vec<String> },
}

/// The action a recovery strategy of type `t` takes.
pub open spec fn recovery_action_matches(t: RecoveryStrategyType, a: RecoveryAction) -> bool {
    match t {
        RecoveryStrategyType::Retry => a matches RecoveryAction::Retry { max_attempts, delay_ms }
            && max_attempts == 3 && delay_ms == 100,
        RecoveryStrategyType::Fallback => a matches RecoveryAction::Fallback { approach, data }
            && approach@ == "simplified_approach"@ && data@ == Map::<String, String>::empty(),
        RecoveryStrategyType::Degrade => a matches RecoveryAction::Degrade { level, capabilities }
            && level@ == "reduced_functionality"@ && capabilities@.len() == 1
            && capabilities@[0]@ == "basic_operations"@,
        RecoveryStrategyType::Skip => a matches RecoveryAction::Skip { reason }
            && reason@ == "Operation not critical"@,
        RecoveryStrategyType::Abort => a matches RecoveryAction::Abort { cleanup_actions }
            && cleanup_actions@.len() == 1 && cleanup_actions@[0]@ == "release_resources"@,
    }
}

impl RecoveryStrategyType {
    /// The action that carrying out a strategy of this type takes
    pub fn action(&self) -> (r: RecoveryAction)
        ensures
            recovery_action_matches(*self, r),
    {
        match self {
            RecoveryStrategyType::Retry => RecoveryAction::Retry { max_attempts: 3, delay_ms: 100 },
            RecoveryStrategyType::Fallback => RecoveryAction::Fallback {
                approach: String::from_str("simplified_approach"),
                data: HashMap::new(),
            },
            RecoveryStrategyType::Degrade => RecoveryAction::Degrade {
                level: String::from_str("reduced_functionality"),
                capabilities: vec![String::from_str("basic_operations")],
            },
            RecoveryStrategyType::Skip => RecoveryAction::Skip { reason: String::from_str("Operation not critical") },
            RecoveryStrategyType::Abort => RecoveryAction::Abort {
                cleanup_actions: vec![String::from_str("release_resources")],
            },
        }
    }
}

/// Error handler configuration
#[derive(Debug, Clone)]
pub struct ErrorHandlerConfig {
    /// Enable automatic recovery
    pub auto_recovery: bool,
    /// Maximum recovery attempts
    pub max_recovery_attempts: usize,
    /// Log all errors
    pub log_errors: bool,
    /// Collect error statistics
    pub collect_statistics: bool,
    /// Error reporting endpoint
    pub reporting_endpoint: Option<String>,
}

impl Default for ErrorHandlerConfig {
    fn default() -> (r: Self)
        ensures
            r.auto_recovery,
            r.max_recovery_attempts == 3,
            r.log_errors,
            r.collect_statistics,
            r.reporting_endpoint is None,
    {
        ErrorHandlerConfig {
            auto_recovery: true,
            max_recovery_attempts: 3,
            log_errors: true,
            collect_statistics: true,
            reporting_endpoint: None,
        }
    }
}

/// The RFC 3339 text that chrono writes for the instant `secs` seconds and
/// `nanos` nanoseconds after the Unix epoch, or `None` where chrono has no
/// such instant.
pub uninterp spec fn rfc3339_text(secs: i64, nanos: u32) -> Option<Seq<char>>;

/// `chrono::DateTime::from_timestamp` and, on the instant it gives,
/// `DateTime::to_rfc3339`. `from_timestamp` answers `None` for seconds or
/// nanoseconds out of its range; the text is a function of the two numbers
/// alone, named `rfc3339_text`, and nothing more is claimed of it.
#[verifier::external_body]
fn rfc3339_at(secs: i64, nanos: u32) -> (r: Option<String>)
    ensures
        match r {
            Some(t) => rfc3339_text(secs, nanos) == Some(t@),
            None => rfc3339_text(secs, nanos) is None,
        },
{
    match chrono::DateTime::from_timestamp(secs, nanos) {
        Some(d) => Some(d.to_rfc3339()),
        None => None,
    }
}

/// The text written for the Unix epoch.
pub open spec fn epoch_text() -> Seq<char> {
    "1970-01-01T00:00:00+00:00"@
}

/// The timestamp written for a clock reading in nanoseconds since the
/// epoch: its RFC 3339 text, or the epoch's where there is no reading (a
/// clock set before the epoch) or chrono cannot write it as a date.
pub open spec fn timestamp_spec(reading: Option<u128>) -> Seq<char> {
    match reading {
        Some(n) => if n / NANOS_PER_SECOND <= i64::MAX as u128 {
            match rfc3339_text((n / NANOS_PER_SECOND) as i64, (n % NANOS_PER_SECOND) as u32) {
                Some(t) => t,
                None => epoch_text(),
            }
        } else {
            epoch_text()
        },
        None => epoch_text(),
    }
}

/// The timestamp for a clock reading in nanoseconds since the epoch
pub fn timestamp_text(reading: Option<u128>) -> (r: String)
    ensures
        r@ == timestamp_spec(reading),
{
    match reading {
        Some(n) => {
            let secs: u128 = n / NANOS_PER_SECOND;
            if secs <= 0x7fff_ffff_ffff_ffffu128 {
                let nanos: u128 = n % NANOS_PER_SECOND;
                match rfc3339_at(secs as i64, nanos as u32) {
                    Some(t) => t,
                    None => String::from_str("1970-01-01T00:00:00+00:00"),
                }
            } else {
                String::from_str("1970-01-01T00:00:00+00:00")
            }
        },
        None => String::from_str("1970-01-01T00:00:00+00:00"),
    }
}

/// Build the context of an error: the given category, message and
/// severity, an unknown location, no extra data or suggestions, and the
/// current time
pub fn create_enhanced_error(category: ErrorCategory, message: &str, severity: ErrorSeverity) -> (r: ErrorContext)
    ensures
        r.category == category,
        r.message@ == message@,
        r.context@ == Map::<String, String>::empty(),
        r.location matches Some(l) && l.file@ == "unknown"@ && l.line == 0 && l.function@ == "unknown"@,
        r.recovery_suggestions@.len() == 0,
        r.severity == severity,
        exists|reading: Option<u128>| r.timestamp@ == #[trigger] timestamp_spec(reading),
{
    let reading = clock_nanos();
    let timestamp = timestamp_text(reading);
    assert(timestamp@ == timestamp_spec(reading));
    ErrorContext {
        category,
        message: String::from_str(message),
        context: HashMap::new(),
        location: Some(ErrorLocation {
            file: String::from_str("unknown"),
            line: 0,
            function: String::from_str("unknown"),
        }),
        recovery_suggestions: Vec::new(),
        severity,
        timestamp,
    }
}

/// Recovery strategy for error handling
#[derive(Debug, Clone)]
pub struct RecoveryStrategy {
    /// Strategy name
    pub name: String,
    /// Strategy description
    pub description: String,
    /// What the strategy does
    pub strategy_type: RecoveryStrategyType,
    /// Estimated success probability (binary64 encoding)
    pub success_probability: u64,
}

impl RecoveryStrategy {
    /// An exact copy of the strategy
    pub fn duplicate(&self) -> (r: Self)
        ensures
            r == *self,
    {
        RecoveryStrategy {
            name: self.name.clone(),
            description: self.description.clone(),
            strategy_type: self.strategy_type,
            success_probability: self.success_probability,
        }
    }
}

/// Enhanced error with context and recovery capabilities
#[derive(Debug, Clone)]
pub struct EnhancedError {
    /// Error context information
    pub context: ErrorContext,
    /// Underlying error
    pub inner: MyQuatError,
    /// Recovery strategies
    pub recovery_strategies: Vec<RecoveryStrategy>,
}

/// Error statistics
#[derive(Debug, Clone)]
pub struct ErrorStatistics {
    /// Total error count
    pub total_errors: usize,
    /// Errors by category (name, count)
    pub errors_by_category: Vec<(String, usize)>,
    /// Errors by severity (name, count)
    pub errors_by_severity: Vec<(String, usize)>,
    /// Recovery success rate (binary64 encoding)
    pub recovery_success_rate: u64,
    /// Most common errors
    pub common_errors: Vec<(String, usize)>,
}

impl Default for ErrorStatistics {
    fn default() -> (r: Self)
        ensures
            r.total_errors == 0,
            r.errors_by_category@.len() == 0,
            r.errors_by_severity@.len() == 0,
            r.recovery_success_rate == 0,
            r.common_errors@.len() == 0,
    {
        ErrorStatistics {
            total_errors: 0,
            errors_by_category: Vec::new(),
            errors_by_severity: Vec::new(),
            recovery_success_rate: 0,
            common_errors: Vec::new(),
        }
    }
}

/// Name under which recovery strategies for a category are registered.
pub open spec fn category_key_spec(c: ErrorCategory) -> Seq<char> {
    match c {
        ErrorCategory::Circuit(_) => "circuit"@,
        ErrorCategory::Gate(_) => "gate"@,
        ErrorCategory::Simulation(_) => "simulation"@,
        ErrorCategory::Hardware(_) => "hardware"@,
        ErrorCategory::Algorithm(_) => "algorithm"@,
        ErrorCategory::Performance(_) => "performance"@,
        ErrorCategory::Configuration(_) => "configuration"@,
        ErrorCategory::IO(_) => "io"@,
    }
}

impl ErrorCategory {
    /// Name under which recovery strategies for this category are registered
    pub fn key(&self) -> (r: &'static str)
        ensures
            r@ == category_key_spec(*self),
    {
        match self {
            ErrorCategory::Circuit(_) => "circuit",
            ErrorCategory::Gate(_) => "gate",
            ErrorCategory::Simulation(_) => "simulation",
            ErrorCategory::Hardware(_) => "hardware",
            ErrorCategory::Algorithm(_) => "algorithm",
            ErrorCategory::Performance(_) => "performance",
            ErrorCategory::Configuration(_) => "configuration",
            ErrorCategory::IO(_) => "io",
        }
    }
}

/// Position of the first strategy registered under `key`, or -1.
pub open spec fn strategy_index(s: Seq<(String, RecoveryStrategy)>, key: Seq<char>) -> int
    decreases s.len(),
{
    if s.len() == 0 {
        -1
    } else {
        let k = strategy_index(s.drop_last(), key);
        if k >= 0 {
            k
        } else if s.last().0@ == key {
            s.len() - 1
        } else {
            -1
        }
    }
}

/// The strategies after registering `strategy` under `category`: it
/// replaces the strategy registered under that name, or is added.
pub open spec fn registered(
    s: Seq<(String, RecoveryStrategy)>,
    category: String,
    strategy: RecoveryStrategy,
) -> Seq<(String, RecoveryStrategy)> {
    let k = strategy_index(s, category@);
    if k >= 0 {
        s.update(k, (s[k].0, strategy))
    } else {
        s.push((category, strategy))
    }
}

/// The first entry under a name holds it, and no entry before it does.
proof fn lemma_strategy_index(s: Seq<(String, RecoveryStrategy)>, key: Seq<char>)
    ensures
        -1 <= strategy_index(s, key) < s.len(),
        strategy_index(s, key) >= 0 ==> s[strategy_index(s, key)].0@ == key,
        forall|j: int|
            0 <= j < s.len() && (strategy_index(s, key) == -1 || j < strategy_index(s, key)) ==> s[j].0@ != key,
    decreases s.len(),
{
    if s.len() > 0 {
        lemma_strategy_index(s.drop_last(), key);
        assert forall|j: int|
            0 <= j < s.len() && (strategy_index(s, key) == -1 || j < strategy_index(s, key)) implies s[j].0@
            != key by {
            if j < s.len() - 1 {
                assert(s[j] == s.drop_last()[j]);
            }
        }
    }
}

/// Position of the strategy registered under `key`.
fn find_strategy(s: &Vec<(String, RecoveryStrategy)>, key: &str) -> (r: Option<usize>)
    ensures
        match r {
            Some(k) => k as int == strategy_index(s@, key@) && k < s@.len() && s@[k as int].0@ == key@,
            None => strategy_index(s@, key@) == -1,
        },
{
    proof {
        lemma_strategy_index(s@, key@);
    }
    let name = String::from_str(key);
    let mut i: usize = 0;
    while i < s.len()
        invariant
            i <= s@.len(),
            name@ == key@,
            -1 <= strategy_index(s@, key@) < s@.len(),
            strategy_index(s@, key@) >= 0 ==> s@[strategy_index(s@, key@)].0@ == key@,
            forall|j: int|
                0 <= j < s@.len() && (strategy_index(s@, key@) == -1 || j < strategy_index(s@, key@))
                    ==> s@[j].0@ != key@,
            forall|j: int| 0 <= j < i ==> s@[j].0@ != key@,
        decreases s.len() - i,
    {
        if s[i].0 == name {
            return Some(i);
        }
        i = i + 1;
    }
    None
}

/// Where a binary64 encoding lies in the order of the values it encodes:
/// the magnitude, negated when the sign bit is set (both zeros at 0).
/// Values that are not numbers have no place in that order.
pub open spec fn order_key(b: u64) -> int {
    let m = (b & MAGNITUDE_BITS) as int;
    if b & SIGN != 0 {
        -m
    } else {
        m
    }
}

fn order_key_of(b: u64) -> (r: i128)
    ensures
        r == order_key(b),
{
    let m = (b & MAGNITUDE_BITS) as i128;
    if b & SIGN != 0 {
        -m
    } else {
        m
    }
}

/// Strategy `i` is the first of those with the highest success probability.
pub open spec fn is_first_best(s: Seq<RecoveryStrategy>, i: int) -> bool {
    &&& 0 <= i < s.len()
    &&& forall|j: int| 0 <= j < s.len() ==> order_key(#[trigger] s[j].success_probability) <= order_key(
        s[i].success_probability,
    )
    &&& forall|j: int| 0 <= j < i ==> order_key(#[trigger] s[j].success_probability) < order_key(
        s[i].success_probability,
    )
}

/// Error handler with recovery capabilities
pub struct ErrorHandler {
    /// Registered recovery strategies (category name, strategy)
    pub strategies: Vec<(String, RecoveryStrategy)>,
    /// Error statistics
    pub statistics: ErrorStatistics,
    /// Configuration
    pub config: ErrorHandlerConfig,
}

/// A strategy with its fields.
fn strategy(name: &str, description: &str, strategy_type: RecoveryStrategyType, p: u64) -> (r: RecoveryStrategy)
    ensures
        r.name@ == name@,
        r.description@ == description@,
        r.strategy_type == strategy_type,
        r.success_probability == p,
{
    RecoveryStrategy {
        name: String::from_str(name),
        description: String::from_str(description),
        strategy_type,
        success_probability: p,
    }
}

/// Success probability 0.7 of the circuit fallback.
pub const PROBABILITY_0_7: u64 = 0x3fe6666666666666u64;

/// Success probability 0.8 of the simulation retry.
pub const PROBABILITY_0_8: u64 = 0x3fe999999999999au64;

/// Success probability 0.9 of the hardware fallback.
pub const PROBABILITY_0_9: u64 = 0x3feccccccccccccdu64;

/// The strategies registered by default: a circuit fallback (0.7), a
/// simulation retry (0.8) and a hardware fallback to the simulator (0.9).
pub open spec fn default_strategies(s: Seq<(String, RecoveryStrategy)>) -> bool {
    &&& s.len() == 3
    &&& s[0].0@ == "circuit"@
    &&& s[0].1.name@ == "circuit_fallback"@
    &&& s[0].1.description@ == "Use fallback circuit construction"@
    &&& s[0].1.strategy_type == RecoveryStrategyType::Fallback
    &&& s[0].1.success_probability == PROBABILITY_0_7
    &&& s[1].0@ == "simulation"@
    &&& s[1].1.name@ == "simulation_retry"@
    &&& s[1].1.description@ == "Retry simulation with reduced precision"@
    &&& s[1].1.strategy_type == RecoveryStrategyType::Retry
    &&& s[1].1.success_probability == PROBABILITY_0_8
    &&& s[2].0@ == "hardware"@
    &&& s[2].1.name@ == "hardware_fallback"@
    &&& s[2].1.description@ == "Fall back to simulator"@
    &&& s[2].1.strategy_type == RecoveryStrategyType::Fallback
    &&& s[2].1.success_probability == PROBABILITY_0_9
}

impl ErrorHandler {
    /// Create a handler with the given configuration, empty statistics and
    /// the default strategies: a circuit fallback (0.7), a simulation retry
    /// (0.8) and a hardware fallback to the simulator (0.9)
    pub fn new(config: ErrorHandlerConfig) -> (r: Self)
        ensures
            r.config == config,
            r.statistics.total_errors == 0,
            r.statistics.errors_by_category@.len() == 0,
            r.statistics.errors_by_severity@.len() == 0,
            r.statistics.recovery_success_rate == 0,
            r.statistics.common_errors@.len() == 0,
            default_strategies(r.strategies@),
    {
        let mut handler = ErrorHandler { strategies: Vec::new(), statistics: ErrorStatistics::default(), config };
        proof {
            lemma_strategy_index(handler.strategies@, "circuit"@);
            reveal_strlit("circuit");
            reveal_strlit("simulation");
            reveal_strlit("hardware");
        }
        handler.register_strategy(
            String::from_str("circuit"),
            strategy("circuit_fallback", "Use fallback circuit construction", RecoveryStrategyType::Fallback, PROBABILITY_0_7),
        );
        assert("simulation"@ != "circuit"@) by {
            assert("simulation"@[0] != "circuit"@[0]);
        }
        proof {
            lemma_strategy_index(handler.strategies@, "simulation"@);
        }
        handler.register_strategy(
            String::from_str("simulation"),
            strategy(
                "simulation_retry",
                "Retry simulation with reduced precision",
                RecoveryStrategyType::Retry,
                PROBABILITY_0_8,
            ),
        );
        assert("hardware"@ != "circuit"@) by {
            assert("hardware"@[0] != "circuit"@[0]);
        }
        assert("hardware"@ != "simulation"@) by {
            assert("hardware"@[0] != "simulation"@[0]);
        }
        proof {
            lemma_strategy_index(handler.strategies@, "hardware"@);
        }
        handler.register_strategy(
            String::from_str("hardware"),
            strategy("hardware_fallback", "Fall back to simulator", RecoveryStrategyType::Fallback, PROBABILITY_0_9),
        );
        handler
    }

    /// Create a handler with the default configuration
    pub fn default() -> (r: Self)
        ensures
            r.config.auto_recovery,
            r.config.max_recovery_attempts == 3,
            r.config.log_errors,
            r.config.collect_statistics,
            r.config.reporting_endpoint is None,
            r.statistics.total_errors == 0,
            r.statistics.errors_by_category@.len() == 0,
            r.statistics.errors_by_severity@.len() == 0,
            r.statistics.recovery_success_rate == 0,
            r.statistics.common_errors@.len() == 0,
            default_strategies(r.strategies@),
    {
        Self::new(ErrorHandlerConfig::default())
    }

    /// Register a recovery strategy for a category name, replacing the one
    /// registered under that name
    pub fn register_strategy(&mut self, category: String, strategy: RecoveryStrategy)
        ensures
            final(self).strategies@ == registered(old(self).strategies@, category, strategy),
            final(self).statistics == old(self).statistics,
            final(self).config == old(self).config,
    {
        let ghost s = self.strategies@;
        let found = find_strategy(&self.strategies, category.as_str());
        match found {
            Some(k) => {
                let name = self.strategies[k].0.clone();
                self.strategies.set(k, (name, strategy));
                assert(self.strategies@ =~= registered(s, category, strategy));
            },
            None => {
                self.strategies.push((category, strategy));
                assert(self.strategies@ =~= registered(s, category, strategy));
            },
        }
    }

    /// The strategies that apply to an error of `category`: the one
    /// registered under its name, if any
    pub fn find_recovery_strategies(&self, category: &ErrorCategory) -> (r: Vec<RecoveryStrategy>)
        ensures
            ({
                let k = strategy_index(self.strategies@, category_key_spec(*category));
                if k >= 0 {
                    r@ == seq![self.strategies@[k].1]
                } else {
                    r@.len() == 0
                }
            }),
    {
        match find_strategy(&self.strategies, category.key()) {
            Some(k) => {
                let r = vec![self.strategies[k].1.duplicate()];
                assert(r@ =~= seq![self.strategies@[k as int].1]);
                r
            },
            None => Vec::new(),
        }
    }

    /// Record an error and attach the strategies that apply to it. When
    /// statistics are collected, the total goes up by one, and so do the
    /// counts under the debug text of the category and
    /// under the severity's text
    pub fn handle_error(&mut self, error: MyQuatError, context: ErrorContext) -> (r: EnhancedError)
        requires
            old(self).config.collect_statistics ==> {
                &&& old(self).statistics.total_errors < usize::MAX
                &&& count_of(count_views(old(self).statistics.errors_by_category@), category_text(context.category)) < usize::MAX
                &&& count_of(
                    count_views(old(self).statistics.errors_by_severity@),
                    severity_text(context.severity),
                ) < usize::MAX
            },
        ensures
            r.context == context,
            r.inner == error,
            ({
                let k = strategy_index(old(self).strategies@, category_key_spec(context.category));
                if k >= 0 {
                    r.recovery_strategies@ == seq![old(self).strategies@[k].1]
                } else {
                    r.recovery_strategies@.len() == 0
                }
            }),
            final(self).strategies == old(self).strategies,
            final(self).config == old(self).config,
            final(self).statistics.recovery_success_rate == old(self).statistics.recovery_success_rate,
            final(self).statistics.common_errors == old(self).statistics.common_errors,
            if old(self).config.collect_statistics {
                &&& final(self).statistics.total_errors == old(self).statistics.total_errors + 1
                &&& count_views(final(self).statistics.errors_by_category@) == measured(
                    count_views(old(self).statistics.errors_by_category@),
                    category_text(context.category),
                )
                &&& count_views(final(self).statistics.errors_by_severity@) == measured(
                    count_views(old(self).statistics.errors_by_severity@),
                    severity_text(context.severity),
                )
            } else {
                final(self).statistics == old(self).statistics
            },
    {
        if self.config.collect_statistics {
            self.statistics.total_errors = self.statistics.total_errors + 1;
            let category_name = category_debug_text(&context.category);
            add_count(&mut self.statistics.errors_by_category, category_name);
            let severity_name = context.severity.to_string();
            add_count(&mut self.statistics.errors_by_severity, severity_name);
        }
        let recovery_strategies = self.find_recovery_strategies(&context.category);
        EnhancedError { context, inner: error, recovery_strategies }
    }

    /// Choose how to recover: fails when automatic recovery is off, or when
    /// there is no strategy to try (none attached, or no attempt allowed);
    /// otherwise the action of the first strategy with the highest success
    /// probability
    pub fn attempt_recovery(&self, enhanced_error: &EnhancedError) -> (r: Result<RecoveryAction>)
        requires
            enhanced_error.recovery_strategies@.len() >= 2 ==> forall|j: int|
                0 <= j < enhanced_error.recovery_strategies@.len() ==> !is_nan_bits(
                    #[trigger] enhanced_error.recovery_strategies@[j].success_probability,
                ),
        ensures
            ({
                let s = enhanced_error.recovery_strategies@;
                if !self.config.auto_recovery {
                    r matches Err(MyQuatError::CircuitError { message }) && message@ == "Auto-recovery disabled"@
                } else if s.len() == 0 || self.config.max_recovery_attempts == 0 {
                    r matches Err(MyQuatError::CircuitError { message }) && message@
                        == "All recovery strategies failed"@
                } else {
                    exists|i: int| is_first_best(s, i) && (r matches Ok(a) && recovery_action_matches(
                        s[i].strategy_type,
                        a,
                    ))
                }
            }),
    {
        if !self.config.auto_recovery {
            return Err(MyQuatError::circuit_error("Auto-recovery disabled"));
        }
        let s = &enhanced_error.recovery_strategies;
        if s.len() == 0 || self.config.max_recovery_attempts == 0 {
            return Err(MyQuatError::circuit_error("All recovery strategies failed"));
        }
        let mut best: usize = 0;
        let mut best_key = order_key_of(s[0].success_probability);
        let mut i: usize = 1;
        while i < s.len()
            invariant
                1 <= i <= s@.len(),
                best < i,
                best_key == order_key(s@[best as int].success_probability),
                forall|j: int| 0 <= j < i ==> order_key(#[trigger] s@[j].success_probability) <= best_key,
                forall|j: int| 0 <= j < best ==> order_key(#[trigger] s@[j].success_probability) < best_key,
            decreases s.len() - i,
        {
            let k = order_key_of(s[i].success_probability);
            if k > best_key {
                best = i;
                best_key = k;
            }
            i = i + 1;
        }
        assert(is_first_best(s@, best as int));
        Ok(s[best].strategy_type.action())
    }

    /// Set the recovery success rate (binary64 encoding)
    pub fn set_recovery_success_rate(&mut self, rate: u64)
        ensures
            final(self).statistics.recovery_success_rate == rate,
            final(self).statistics.total_errors == old(self).statistics.total_errors,
            final(self).statistics.errors_by_category == old(self).statistics.errors_by_category,
            final(self).statistics.errors_by_severity == old(self).statistics.errors_by_severity,
            final(self).statistics.common_errors == old(self).statistics.common_errors,
            final(self).strategies == old(self).strategies,
            final(self).config == old(self).config,
    {
        self.statistics.recovery_success_rate = rate;
    }

    /// Error statistics
    pub fn statistics(&self) -> (r: &ErrorStatistics)
        ensures
            *r == self.statistics,
    {
        &self.statistics
    }
}

/// Registering a strategy and then looking up its category finds it.
pub proof fn law_registered_strategy_is_found(
    s: Seq<(String, RecoveryStrategy)>,
    category: String,
    strategy: RecoveryStrategy,
)
    ensures
        ({
            let t = registered(s, category, strategy);
            let k = strategy_index(t, category@);
            k >= 0 && t[k].1 == strategy
        }),
{
    lemma_strategy_index(s, category@);
    let k = strategy_index(s, category@);
    let t = registered(s, category, strategy);
    if k >= 0 {
        lemma_same_names(s, t, category@);
    } else {
        assert(t.drop_last() =~= s);
    }
}

/// Sequences with the same names at the same positions find a name at the
/// same position.
proof fn lemma_same_names(a: Seq<(String, RecoveryStrategy)>, b: Seq<(String, RecoveryStrategy)>, key: Seq<char>)
    requires
        a.len() == b.len(),
        forall|j: int| 0 <= j < a.len() ==> #[trigger] a[j].0@ == b[j].0@,
    ensures
        strategy_index(a, key) == strategy_index(b, key),
    decreases a.len(),
{
    if a.len() > 0 {
        lemma_same_names(a.drop_last(), b.drop_last(), key);
    }
}

} // verus!
