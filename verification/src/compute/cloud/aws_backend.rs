//! Descriptions of AWS Braket devices and tasks, and the performance
//! profile of the backend.

use vstd::prelude::*;
use crate::compute::cloud_config::AwsBraketConfig;
use crate::compute::types::PerformanceProfile;
use crate::error::{is_circuit_error, MyQuatError, Result};
use crate::compute::cloud::polling::{framed_error, PollStep};
use crate::text::{contains_text, has_infix};

verus! {

/// AWS Braket device types
#[derive(Debug, Clone, Copy, PartialEq, Eq, Structural)]
pub enum BraketDeviceType {
    StateVectorSimulator,
    TensorNetworkSimulator,
    IonQDevice,
    RigettiDevice,
    OqcDevice,
}

/// The device type that a device ARN names: the first of the markers
/// `sv1`, `tn1`, `ionq`, `rigetti`, `oqc` found in it decides, and the
/// state-vector simulator is the fallback.
pub open spec fn device_type_of(arn: Seq<char>) -> BraketDeviceType {
    if has_infix(arn, "sv1"@) {
        BraketDeviceType::StateVectorSimulator
    } else if has_infix(arn, "tn1"@) {
        BraketDeviceType::TensorNetworkSimulator
    } else if has_infix(arn, "ionq"@) {
        BraketDeviceType::IonQDevice
    } else if has_infix(arn, "rigetti"@) {
        BraketDeviceType::RigettiDevice
    } else if has_infix(arn, "oqc"@) {
        BraketDeviceType::OqcDevice
    } else {
        BraketDeviceType::StateVectorSimulator
    }
}

impl BraketDeviceType {
    /// Device type named by a device ARN
    pub fn from_arn(arn: &str) -> (r: Self)
        ensures
            r == device_type_of(arn@),
    {
        if contains_text(arn, "sv1") {
            BraketDeviceType::StateVectorSimulator
        } else if contains_text(arn, "tn1") {
            BraketDeviceType::TensorNetworkSimulator
        } else if contains_text(arn, "ionq") {
            BraketDeviceType::IonQDevice
        } else if contains_text(arn, "rigetti") {
            BraketDeviceType::RigettiDevice
        } else if contains_text(arn, "oqc") {
            BraketDeviceType::OqcDevice
        } else {
            BraketDeviceType::StateVectorSimulator
        }
    }
}

/// Task status on AWS Braket
#[derive(Debug, Clone, Copy, PartialEq, Eq, Structural)]
pub enum TaskStatus {
    Created,
    Queued,
    Running,
    Completed,
    Failed,
    Cancelled,
}

/// The next step of the loop waiting for task `task_arn` after reading its
/// status: fetch the result of a completed task; stop with an error on a
/// failed or cancelled one; otherwise time out once the time allowed is
/// over, else wait and poll again
pub fn task_poll_step(task_arn: &str, status: TaskStatus, timed_out: bool) -> (r: PollStep)
    ensures
        match status {
            TaskStatus::Completed => r is FetchResult,
            TaskStatus::Failed => r matches PollStep::Stop(MyQuatError::CircuitError { message })
                && message@ == "Task "@ + task_arn@ + " failed on AWS Braket"@,
            TaskStatus::Cancelled => r matches PollStep::Stop(MyQuatError::CircuitError { message })
                && message@ == "Task "@ + task_arn@ + " was cancelled"@,
            _ => if timed_out { r is TimedOut } else { r is Wait },
        },
{
    match status {
        TaskStatus::Completed => PollStep::FetchResult,
        TaskStatus::Failed => PollStep::Stop(framed_error("Task ", task_arn, " failed on AWS Braket")),
        TaskStatus::Cancelled => PollStep::Stop(framed_error("Task ", task_arn, " was cancelled")),
        _ => if timed_out {
            PollStep::TimedOut
        } else {
            PollStep::Wait
        },
    }
}

/// A Braket device
#[derive(Debug, Clone)]
pub struct BraketDevice {
    pub arn: String,
    pub name: String,
    pub provider: String,
    pub device_type: BraketDeviceType,
    pub status: String,
    pub num_qubits: usize,
}

/// Device capabilities
#[derive(Debug, Clone)]
pub struct DeviceCapabilities {
    pub device_arn: String,
    pub device_type: BraketDeviceType,
    pub num_qubits: usize,
    pub connectivity: std::collections::HashMap<usize, Vec<usize>>,
    pub native_gates: Vec<String>,
}


/// Check that an AWS Braket configuration can be used: it must be enabled
/// and carry both parts of its credentials
pub fn check_aws_config(config: &AwsBraketConfig) -> (r: Result<()>)
    ensures
        !config.enabled ==> (r matches Err(e) && is_circuit_error(e, "AWS Braket backend is not enabled in configuration"@)),
        config.enabled && (config.access_key_id@.len() == 0 || config.secret_access_key@.len() == 0)
            ==> (r matches Err(e) && is_circuit_error(e, "AWS credentials are empty"@)),
        config.enabled && config.access_key_id@.len() > 0 && config.secret_access_key@.len() > 0 ==> r is Ok,
{
    if !config.enabled {
        return Err(MyQuatError::circuit_error("AWS Braket backend is not enabled in configuration"));
    }
    if config.access_key_id.as_str().is_empty() || config.secret_access_key.as_str().is_empty() {
        return Err(MyQuatError::circuit_error("AWS credentials are empty"));
    }
    Ok(())
}

/// Maximum qubits and encoded operations per second of a device type.
pub open spec fn braket_capacity(t: BraketDeviceType) -> (usize, u64) {
    match t {
        BraketDeviceType::StateVectorSimulator => (34, 0x4069000000000000u64),
        BraketDeviceType::TensorNetworkSimulator => (50, 0x4059000000000000u64),
        BraketDeviceType::IonQDevice => (11, 0x4024000000000000u64),
        BraketDeviceType::RigettiDevice => (32, 0x4034000000000000u64),
        BraketDeviceType::OqcDevice => (8, 0x402e000000000000u64),
    }
}

/// Encoding of the 5000 ms startup overhead of a cloud backend.
pub const CLOUD_STARTUP_MS: u64 = 0x40b3880000000000u64;

/// Performance profile of the Braket backend whose default device is
/// `default_backend`: the device type's capacity (SV1 34 qubits at 200
/// operations per second, TN1 50 at 100, IonQ 11 at 10, Rigetti 32 at 20,
/// OQC 8 at 15), a 5 s startup, no local memory, batches of 50
pub fn braket_performance_profile(default_backend: &str) -> (r: PerformanceProfile)
    ensures
        (r.max_qubits, r.ops_per_second) == braket_capacity(device_type_of(default_backend@)),
        r.startup_overhead_ms == CLOUD_STARTUP_MS,
        r.memory_per_qubit_bytes == 0,
        r.supports_batching,
        r.optimal_batch_size == Some(50usize),
{
    let (max_qubits, ops_per_second): (usize, u64) = match BraketDeviceType::from_arn(default_backend) {
        BraketDeviceType::StateVectorSimulator => (34, 0x4069000000000000u64),
        BraketDeviceType::TensorNetworkSimulator => (50, 0x4059000000000000u64),
        BraketDeviceType::IonQDevice => (11, 0x4024000000000000u64),
        BraketDeviceType::RigettiDevice => (32, 0x4034000000000000u64),
        BraketDeviceType::OqcDevice => (8, 0x402e000000000000u64),
    };
    PerformanceProfile {
        max_qubits,
        ops_per_second,
        startup_overhead_ms: CLOUD_STARTUP_MS,
        memory_per_qubit_bytes: 0,
        supports_batching: true,
        optimal_batch_size: Some(50),
    }
}

} // verus!
