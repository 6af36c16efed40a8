//! IBM Quantum: configuration checks, job states, device descriptions and
//! the performance profile of the backend.

use vstd::prelude::*;
use vstd::string::StringExecFns;
use crate::compute::cloud::aws_backend::CLOUD_STARTUP_MS;
use crate::compute::cloud_config::IbmQuantumConfig;
use crate::compute::types::PerformanceProfile;
use crate::error::{is_circuit_error, MyQuatError, Result};
use crate::compute::cloud::polling::{framed_error, PollStep};
use crate::text::{concat, contains_text, has_infix};

verus! {

/// Job status on IBM Quantum
#[derive(Debug, Clone, Copy, PartialEq, Eq, Structural)]
pub enum JobStatus {
    Queued,
    Running,
    Completed,
    Failed,
    Cancelled,
}

/// The next step of the loop waiting for job `job_id` after reading its
/// status: fetch the result of a completed job; stop with an error on a
/// failed or cancelled one; otherwise time out once the time allowed is
/// over, else wait and poll again
pub fn job_poll_step(job_id: &str, status: JobStatus, timed_out: bool) -> (r: PollStep)
    ensures
        match status {
            JobStatus::Completed => r is FetchResult,
            JobStatus::Failed => r matches PollStep::Stop(MyQuatError::CircuitError { message })
                && message@ == "Job "@ + job_id@ + " failed on IBM Quantum"@,
            JobStatus::Cancelled => r matches PollStep::Stop(MyQuatError::CircuitError { message })
                && message@ == "Job "@ + job_id@ + " was cancelled"@,
            _ => if timed_out { r is TimedOut } else { r is Wait },
        },
{
    match status {
        JobStatus::Completed => PollStep::FetchResult,
        JobStatus::Failed => PollStep::Stop(framed_error("Job ", job_id, " failed on IBM Quantum")),
        JobStatus::Cancelled => PollStep::Stop(framed_error("Job ", job_id, " was cancelled")),
        _ => if timed_out {
            PollStep::TimedOut
        } else {
            PollStep::Wait
        },
    }
}

/// Check that an IBM Quantum configuration can be used: it must be enabled
/// and carry an API token
pub fn check_ibm_config(config: &IbmQuantumConfig) -> (r: Result<()>)
    ensures
        !config.enabled ==> (r matches Err(e) && is_circuit_error(e, "IBM Quantum backend is not enabled in configuration"@)),
        config.enabled && config.api_token@.len() == 0 ==> (r matches Err(e)
            && is_circuit_error(e, "IBM Quantum API token is empty"@)),
        config.enabled && config.api_token@.len() > 0 ==> r is Ok,
{
    if !config.enabled {
        return Err(MyQuatError::circuit_error("IBM Quantum backend is not enabled in configuration"));
    }
    if config.api_token.as_str().is_empty() {
        return Err(MyQuatError::circuit_error("IBM Quantum API token is empty"));
    }
    Ok(())
}

/// Backend information from IBM Quantum; numbers with fractions are
/// carried as their IEEE-754 binary64 encodings
#[derive(Debug, Clone)]
pub struct BackendInfo {
    pub name: String,
    pub version: String,
    pub num_qubits: usize,
    pub is_simulator: bool,
    pub status: String,
    /// Queue length for QPU devices
    pub queue_length: Option<usize>,
    /// Coupling map (qubit connectivity)
    pub coupling_map: Vec<(usize, usize)>,
    /// Encoded gate error rates by gate name
    pub gate_errors: Vec<(String, u64)>,
    /// Encoded readout error rates per qubit
    pub readout_errors: Vec<u64>,
    /// Encoded T1 coherence times in microseconds
    pub t1_times: Vec<u64>,
    /// Encoded T2 coherence times in microseconds
    pub t2_times: Vec<u64>,
}

/// Coupling map of the seven-qubit example device: a line, both directions.
pub open spec fn line_coupling() -> Seq<(usize, usize)> {
    seq![(0, 1), (1, 2), (2, 3), (3, 4), (4, 5), (5, 6), (1, 0), (2, 1), (3, 2), (4, 3), (5, 4), (6, 5)]
}

/// Encoded readout errors of the example device: 0.02, 0.025, 0.03, 0.028, 0.032, 0.029, 0.031.
pub open spec fn device_readout_errors() -> Seq<u64> {
    seq![
        0x3f947ae147ae147bu64, 0x3f9999999999999au64, 0x3f9eb851eb851eb8u64, 0x3f9cac083126e979u64,
        0x3fa0624dd2f1a9fcu64, 0x3f9db22d0e560419u64, 0x3f9fbe76c8b43958u64,
    ]
}

/// Encoded T1 times of the example device: 85.2, 92.1, 78.5, 88.9, 91.3, 86.7, 89.4.
pub open spec fn device_t1() -> Seq<u64> {
    seq![
        0x40554ccccccccccdu64, 0x4057066666666666u64, 0x4053a00000000000u64, 0x405639999999999au64,
        0x4056d33333333333u64, 0x4055accccccccccdu64, 0x405659999999999au64,
    ]
}

/// Encoded T2 times of the example device: 42.1, 45.8, 39.2, 44.3, 46.1, 43.5, 44.8.
pub open spec fn device_t2() -> Seq<u64> {
    seq![
        0x40450ccccccccccdu64, 0x4046e66666666666u64, 0x404399999999999au64, 0x4046266666666666u64,
        0x40470ccccccccccdu64, 0x4045c00000000000u64, 0x4046666666666666u64,
    ]
}

/// Encoding of 100.0.
pub const HUNDRED_BITS: u64 = 0x4059000000000000u64;
/// Encoding of 50.0.
pub const FIFTY_BITS: u64 = 0x4049000000000000u64;

/// The description of a backend: a name containing "simulator" describes a
/// 32-qubit fully connected simulator; any other name the seven-qubit line
/// device.
pub open spec fn describes(name: Seq<char>, r: BackendInfo) -> bool {
    &&& r.name@ == name
    &&& r.version@ == "1.0"@
    &&& r.status@ == "online"@
    &&& r.is_simulator == has_infix(name, "simulator"@)
    &&& if r.is_simulator {
        &&& r.num_qubits == 32
        &&& r.queue_length == Some(0usize)
        &&& r.coupling_map@.len() == 0
        &&& r.gate_errors@.len() == 0
        &&& r.readout_errors@ == Seq::new(32, |i: int| 0u64)
        &&& r.t1_times@ == Seq::new(32, |i: int| HUNDRED_BITS)
        &&& r.t2_times@ == Seq::new(32, |i: int| FIFTY_BITS)
    } else {
        &&& r.num_qubits == 7
        &&& r.queue_length == Some(5usize)
        &&& r.coupling_map@ == line_coupling()
        &&& r.gate_errors@.map_values(|e: (String, u64)| (e.0@, e.1))
            == seq![("u3_0"@, 0x3f50624dd2f1a9fcu64), ("cx_0_1"@, 0x3f847ae147ae147bu64)]
        &&& r.readout_errors@ == device_readout_errors()
        &&& r.t1_times@ == device_t1()
        &&& r.t2_times@ == device_t2()
    }
}

fn filled(n: usize, v: u64) -> (r: Vec<u64>)
    ensures
        r@ == Seq::new(n as nat, |i: int| v),
{
    let mut r: Vec<u64> = Vec::new();
    while r.len() < n
        invariant
            r.len() <= n,
            forall|i: int| 0 <= i < r.len() ==> r@[i] == v,
        decreases n - r.len(),
    {
        r.push(v);
    }
    assert(r@ =~= Seq::new(n as nat, |i: int| v));
    r
}

/// Description of an IBM Quantum backend by name
pub fn device_info(backend_name: &str) -> (r: BackendInfo)
    ensures
        describes(backend_name@, r),
{
    let is_simulator = contains_text(backend_name, "simulator");
    if is_simulator {
        BackendInfo {
            name: String::from_str(backend_name),
            version: String::from_str("1.0"),
            num_qubits: 32,
            is_simulator,
            status: String::from_str("online"),
            queue_length: Some(0),
            coupling_map: Vec::new(),
            gate_errors: Vec::new(),
            readout_errors: filled(32, 0),
            t1_times: filled(32, HUNDRED_BITS),
            t2_times: filled(32, FIFTY_BITS),
        }
    } else {
        let coupling_map = vec![(0, 1), (1, 2), (2, 3), (3, 4), (4, 5), (5, 6), (1, 0), (2, 1), (3, 2), (4, 3), (5, 4), (6, 5)];
        let gate_errors = vec![
            (String::from_str("u3_0"), 0x3f50624dd2f1a9fcu64),
            (String::from_str("cx_0_1"), 0x3f847ae147ae147bu64),
        ];
        let readout_errors = vec![
            0x3f947ae147ae147bu64, 0x3f9999999999999au64, 0x3f9eb851eb851eb8u64, 0x3f9cac083126e979u64,
            0x3fa0624dd2f1a9fcu64, 0x3f9db22d0e560419u64, 0x3f9fbe76c8b43958u64,
        ];
        let t1_times = vec![
            0x40554ccccccccccdu64, 0x4057066666666666u64, 0x4053a00000000000u64, 0x405639999999999au64,
            0x4056d33333333333u64, 0x4055accccccccccdu64, 0x405659999999999au64,
        ];
        let t2_times = vec![
            0x40450ccccccccccdu64, 0x4046e66666666666u64, 0x404399999999999au64, 0x4046266666666666u64,
            0x40470ccccccccccdu64, 0x4045c00000000000u64, 0x4046666666666666u64,
        ];
        let r = BackendInfo {
            name: String::from_str(backend_name),
            version: String::from_str("1.0"),
            num_qubits: 7,
            is_simulator,
            status: String::from_str("online"),
            queue_length: Some(5),
            coupling_map,
            gate_errors,
            readout_errors,
            t1_times,
            t2_times,
        };
        assert(r.coupling_map@ =~= line_coupling());
        assert(r.gate_errors@.map_values(|e: (String, u64)| (e.0@, e.1))
            =~= seq![("u3_0"@, 0x3f50624dd2f1a9fcu64), ("cx_0_1"@, 0x3f847ae147ae147bu64)]);
        assert(r.readout_errors@ =~= device_readout_errors());
        assert(r.t1_times@ =~= device_t1());
        assert(r.t2_times@ =~= device_t2());
        r
    }
}

/// Names of the backends the service offers
pub fn known_backends() -> (r: Vec<String>)
    ensures
        r@.map_values(|s: String| s@) == seq!["ibmq_qasm_simulator"@, "ibmq_lima"@, "ibmq_belem"@, "ibmq_quito"@],
{
    let r = vec![
        String::from_str("ibmq_qasm_simulator"),
        String::from_str("ibmq_lima"),
        String::from_str("ibmq_belem"),
        String::from_str("ibmq_quito"),
    ];
    assert(r@.map_values(|s: String| s@) =~= seq!["ibmq_qasm_simulator"@, "ibmq_lima"@, "ibmq_belem"@, "ibmq_quito"@]);
    r
}

/// Encoding of the 100 operations per second of the IBM backend.
pub const IBM_OPS_PER_SECOND: u64 = 0x4059000000000000u64;

/// Performance profile of the IBM Quantum backend: the configured maximum
/// qubits, 100 operations per second, a 5 s startup, no local memory,
/// batches of 100
pub fn ibm_performance_profile(max_qubits: usize) -> (r: PerformanceProfile)
    ensures
        r.max_qubits == max_qubits,
        r.ops_per_second == IBM_OPS_PER_SECOND,
        r.startup_overhead_ms == CLOUD_STARTUP_MS,
        r.memory_per_qubit_bytes == 0,
        r.supports_batching,
        r.optimal_batch_size == Some(100usize),
{
    PerformanceProfile {
        max_qubits,
        ops_per_second: IBM_OPS_PER_SECOND,
        startup_overhead_ms: CLOUD_STARTUP_MS,
        memory_per_qubit_bytes: 0,
        supports_batching: true,
        optimal_batch_size: Some(100),
    }
}

/// `c` is the configuration for the API token `token` alone.
pub open spec fn is_token_config(c: IbmQuantumConfig, token: Seq<char>) -> bool {
    &&& c.enabled
    &&& c.api_token@ == token
    &&& c.api_url@ == "https://auth.quantum-computing.ibm.com/api"@
    &&& c.hub is None
    &&& c.group is None
    &&& c.project is None
    &&& c.default_backend@ == "ibmq_qasm_simulator"@
    &&& c.prefer_simulator
    &&& c.max_qubits == 127
}

/// The configuration for an API token alone: enabled, the public IBM
/// Quantum API, no hub, group or project, the QASM simulator as default
/// backend, simulators preferred, at most 127 qubits
pub fn token_config(api_token: String) -> (r: IbmQuantumConfig)
    ensures
        is_token_config(r, api_token@),
{
    IbmQuantumConfig {
        enabled: true,
        api_token,
        api_url: String::from_str("https://auth.quantum-computing.ibm.com/api"),
        hub: None,
        group: None,
        project: None,
        default_backend: String::from_str("ibmq_qasm_simulator"),
        prefer_simulator: true,
        max_qubits: 127,
    }
}

/// What serde_json reads from `text` under `key`: `Err` with its message
/// where `text` is not JSON, `Ok(None)` where the value holds no string under
/// `key`, else the string.
pub uninterp spec fn json_string_field(text: Seq<char>, key: Seq<char>) -> core::result::Result<Option<Seq<char>>, Seq<char>>;

/// `serde_json::from_str` into a `serde_json::Value`, then `Value::get` with
/// `key` and `Value::as_str`: the parse error's text, or the string found
/// under `key` if any. The outcome is a function of the two texts alone,
/// named `json_string_field`, and nothing more is claimed of it.
#[verifier::external_body]
fn json_string_field_of(text: &str, key: &str) -> (r: core::result::Result<Option<String>, String>)
    ensures
        match r {
            Ok(Some(v)) => json_string_field(text@, key@) == Ok::<Option<Seq<char>>, Seq<char>>(Some(v@)),
            Ok(None) => json_string_field(text@, key@) == Ok::<Option<Seq<char>>, Seq<char>>(None),
            Err(m) => json_string_field(text@, key@) == Err::<Option<Seq<char>>, Seq<char>>(m@),
        },
{
    match serde_json::from_str::<serde_json::Value>(text) {
        Ok(value) => match value.get(key) {
            Some(field) => match field.as_str() {
                Some(v) => Ok(Some(v.to_string())),
                None => Ok(None),
            },
            None => Ok(None),
        },
        Err(e) => Err(e.to_string()),
    }
}

/// The configuration read from the text of an `apikey.json` file: the
/// string under `apikey`, as the only setting, checked as the backend
/// checks a configuration
pub fn ibm_config_from_apikey_json(contents: &str) -> (r: Result<IbmQuantumConfig>)
    ensures
        match json_string_field(contents@, "apikey"@) {
            Err(m) => r matches Err(e) && e matches MyQuatError::IoError(t)
                && t@ == "Failed to parse apikey.json: "@ + m,
            Ok(None) => r matches Err(e) && is_circuit_error(e, "API key not found in JSON file"@),
            Ok(Some(k)) => if k.len() == 0 {
                r matches Err(e) && is_circuit_error(e, "IBM Quantum API token is empty"@)
            } else {
                r matches Ok(c) && is_token_config(c, k)
            },
        },
{
    match json_string_field_of(contents, "apikey") {
        Err(m) => Err(MyQuatError::IoError(concat("Failed to parse apikey.json: ", m.as_str()))),
        Ok(None) => Err(MyQuatError::circuit_error("API key not found in JSON file")),
        Ok(Some(k)) => {
            let config = token_config(k);
            check_ibm_config(&config)?;
            Ok(config)
        },
    }
}

} // verus!
