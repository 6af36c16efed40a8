use myquat::MyQuatError;
use myquat::compute::backend_manager::{auto_select, select_backend, BackendFacts};
use myquat::compute::cloud::aws_backend::{braket_performance_profile, check_aws_config, BraketDeviceType};
use myquat::compute::cloud::ibm_backend::{check_ibm_config, device_info, ibm_config_from_apikey_json, ibm_performance_profile, known_backends, token_config};
use myquat::compute::cloud_config::AwsBraketConfig;
use myquat::compute::cloud::job_manager::JobQueue;
use myquat::compute::cloud_config::{default_timeout, CloudConfig, IbmQuantumConfig, default_ibm_api_url, default_ibm_backend, EnvironmentSettings};
use myquat::compute::types::{CloudBackendVariant, ComputeBackendType, ExecutionResult, GpuType, LocalBackendVariant, SelectionStrategy};

#[test]
fn test_device_type_detection() {
    assert_eq!(
        BraketDeviceType::from_arn("arn:aws:braket:::device/quantum-simulator/amazon/sv1"),
        BraketDeviceType::StateVectorSimulator
    );
    assert_eq!(
        BraketDeviceType::from_arn("arn:aws:braket:us-east-1::device/qpu/ionq/Harmony"),
        BraketDeviceType::IonQDevice
    );
}

#[test]
fn device_type_detection_other_markers() {
    assert_eq!(
        BraketDeviceType::from_arn("arn:aws:braket:::device/quantum-simulator/amazon/tn1"),
        BraketDeviceType::TensorNetworkSimulator
    );
    assert_eq!(
        BraketDeviceType::from_arn("arn:aws:braket:::device/qpu/rigetti/Aspen"),
        BraketDeviceType::RigettiDevice
    );
    assert_eq!(
        BraketDeviceType::from_arn("arn:aws:braket:::device/qpu/oqc/Lucy"),
        BraketDeviceType::OqcDevice
    );
    assert_eq!(BraketDeviceType::from_arn(""), BraketDeviceType::StateVectorSimulator);
}

#[test]
fn test_job_queue() {
    let mut queue = JobQueue::new();

    queue.add_job("job1".to_string());
    queue.add_job("job2".to_string());
    queue.add_job("job3".to_string());

    let status = queue.status();
    assert_eq!(status.pending_count, 3);
    assert_eq!(status.running_count, 0);

    queue.mark_running("job1").unwrap();
    let status = queue.status();
    assert_eq!(status.pending_count, 2);
    assert_eq!(status.running_count, 1);

    queue.mark_completed("job1").unwrap();
    let status = queue.status();
    assert_eq!(status.running_count, 0);
    assert_eq!(status.completed_count, 1);
}

#[test]
fn job_queue_refuses_unknown_jobs() {
    let mut queue = JobQueue::new();
    queue.add_job("a".to_string());
    assert!(queue.mark_running("b").is_err());
    assert!(queue.mark_completed("a").is_err());
    assert_eq!(queue.next_pending().map(|s| s.as_str()), Some("a"));
}

#[test]
fn test_default_config() {
    let config = CloudConfig::default();
    assert_eq!(config.global.timeout_secs, 300);
    assert_eq!(config.preferences.auto_select, true);
    assert_eq!(default_timeout(), 300);
    assert_eq!(f64::from_bits(config.preferences.max_cost_per_job), 10.0);
}

#[test]
fn test_enabled_backends() {
    let mut config = CloudConfig::default();
    config.ibm_quantum = Some(IbmQuantumConfig {
        enabled: true,
        api_token: "test".to_string(),
        api_url: default_ibm_api_url(),
        hub: None,
        group: None,
        project: None,
        default_backend: default_ibm_backend(),
        prefer_simulator: true,
        max_qubits: 127,
    });

    let enabled = config.enabled_backends();
    assert_eq!(enabled.len(), 1);
    assert_eq!(enabled[0], "ibm_quantum");
}

#[test]
fn validation_messages() {
    let config = CloudConfig::default();
    match config.validate() {
        Err(e) => assert!(format!("{:?}", e).contains("No cloud backends are enabled")),
        Ok(()) => panic!("expected an error"),
    }
    let mut config = CloudConfig::default();
    config.ibm_quantum = Some(IbmQuantumConfig {
        enabled: true,
        api_token: String::new(),
        api_url: default_ibm_api_url(),
        hub: None,
        group: None,
        project: None,
        default_backend: default_ibm_backend(),
        prefer_simulator: true,
        max_qubits: 127,
    });
    match config.validate() {
        Err(e) => assert!(format!("{:?}", e).contains("api_token is empty")),
        Ok(()) => panic!("expected an error"),
    }
    config.ibm_quantum.as_mut().unwrap().api_token = "t".to_string();
    assert!(config.validate().is_ok());
}

#[test]
fn environment_configures_backends() {
    let env = EnvironmentSettings {
        ibm_token: Some("tok".to_string()),
        ibm_url: None,
        ibm_hub: Some("hub".to_string()),
        ibm_group: None,
        ibm_project: None,
        ibm_backend: None,
        aws_access_key_id: Some("key".to_string()),
        aws_secret_access_key: None,
        aws_session_token: None,
        aws_region: None,
        aws_bucket: None,
        aws_prefix: None,
        aws_backend: None,
    };
    let config = CloudConfig::from_environment(env).unwrap();
    let ibm = config.ibm_quantum.as_ref().unwrap();
    assert_eq!(ibm.api_token, "tok");
    assert_eq!(ibm.api_url, "https://auth.quantum-computing.ibm.com/api");
    assert_eq!(ibm.hub.as_deref(), Some("hub"));
    assert!(config.aws_braket.is_none());
    assert_eq!(config.enabled_backends(), vec!["ibm_quantum"]);
}

#[test]
fn backend_type_text() {
    assert_eq!(
        ComputeBackendType::Local(LocalBackendVariant::GPU(GpuType::CUDA)).to_string(),
        "local:gpu_cuda"
    );
    assert_eq!(
        ComputeBackendType::Cloud(CloudBackendVariant::AWSBraket).to_string(),
        "cloud:aws_braket"
    );
    assert_eq!(SelectionStrategy::default(), SelectionStrategy::Auto);
}

fn facts(name: &str, available: bool, compatible: bool, cloud: bool) -> BackendFacts {
    BackendFacts { name: name.to_string(), available, compatible, cloud }
}

#[test]
fn small_circuits_prefer_simd_then_cpu() {
    let bs = vec![facts("cpu", true, true, false), facts("simd", true, true, false)];
    assert_eq!(auto_select(&bs, &None, false, false, 4, &Some("cpu".to_string())).unwrap(), 1);
    let bs = vec![facts("cpu", false, true, false), facts("simd", false, true, false)];
    // the CPU backend only has to accept the circuit
    assert_eq!(auto_select(&bs, &None, false, false, 4, &None).unwrap(), 0);
}

#[test]
fn preferred_and_cloud_choices() {
    let bs = vec![
        facts("cpu", true, true, false),
        facts("ibm", false, true, true),
        facts("aws", true, true, true),
    ];
    assert_eq!(auto_select(&bs, &Some("aws".to_string()), false, false, 4, &None).unwrap(), 2);
    assert_eq!(auto_select(&bs, &None, true, false, 4, &None).unwrap(), 2);
    assert_eq!(auto_select(&bs, &None, false, false, 25, &None).unwrap(), 2);
    let local = vec![facts("cpu", true, true, false)];
    assert!(auto_select(&local, &None, true, false, 4, &None).is_err());
}

#[test]
fn fallback_to_default_and_manual_choice() {
    let bs = vec![facts("parallel", false, true, false), facts("cpu", true, true, false)];
    assert_eq!(auto_select(&bs, &None, false, true, 15, &Some("cpu".to_string())).unwrap(), 1);
    match auto_select(&bs, &None, false, true, 15, &Some("gone".to_string())) {
        Err(e) => assert_eq!(e.to_string(), "Circuit construction error: Backend 'gone' not found"),
        Ok(_) => panic!("expected an error"),
    }
    assert!(auto_select(&bs, &None, false, true, 15, &None).is_err());
    let manual = SelectionStrategy::Manual("parallel".to_string());
    assert_eq!(select_backend(&manual, &bs, &None, false, false, 3, &None).unwrap(), 0);
}

#[test]
fn ibm_device_descriptions() {
    let sim = device_info("ibmq_qasm_simulator");
    assert!(sim.is_simulator);
    assert_eq!(sim.num_qubits, 32);
    assert_eq!(sim.queue_length, Some(0));
    assert_eq!(f64::from_bits(sim.t1_times[3]), 100.0);
    let dev = device_info("ibmq_lima");
    assert!(!dev.is_simulator);
    assert_eq!(dev.num_qubits, 7);
    assert_eq!(dev.coupling_map.len(), 12);
    assert_eq!(f64::from_bits(dev.readout_errors[1]), 0.025);
    assert_eq!(f64::from_bits(dev.t2_times[6]), 44.8);
    assert_eq!(known_backends().len(), 4);
}

#[test]
fn backend_configuration_checks() {
    let mut ibm = IbmQuantumConfig {
        enabled: false,
        api_token: "t".to_string(),
        api_url: default_ibm_api_url(),
        hub: None,
        group: None,
        project: None,
        default_backend: default_ibm_backend(),
        prefer_simulator: true,
        max_qubits: 127,
    };
    assert!(check_ibm_config(&ibm).is_err());
    ibm.enabled = true;
    assert!(check_ibm_config(&ibm).is_ok());
    ibm.api_token = String::new();
    assert!(check_ibm_config(&ibm).is_err());
    let aws = AwsBraketConfig {
        enabled: true,
        access_key_id: "k".to_string(),
        secret_access_key: String::new(),
        session_token: None,
        region: "us-east-1".to_string(),
        s3_bucket: "b".to_string(),
        s3_prefix: "p".to_string(),
        default_backend: "d".to_string(),
        max_qubits: 34,
    };
    match check_aws_config(&aws) {
        Err(e) => assert_eq!(e.to_string(), "Circuit construction error: AWS credentials are empty"),
        Ok(()) => panic!("expected an error"),
    }
}

#[test]
fn execution_result_counts_measurements() {
    let mut r = ExecutionResult::new("cpu".to_string(), 4);
    assert_eq!(r.most_likely(), None);
    r.add_measurement("00".to_string());
    r.add_measurement("11".to_string());
    r.add_measurement("11".to_string());
    r.add_measurement("01".to_string());
    assert_eq!(r.count("11"), 2);
    assert_eq!(r.count("00"), 1);
    assert_eq!(r.count("10"), 0);
    assert_eq!(r.counts.len(), 3);
    assert_eq!(r.most_likely(), Some(("11".to_string(), 2)));
    r.add_measurement("00".to_string());
    // among equal counts the last listed wins
    assert_eq!(r.most_likely(), Some(("11".to_string(), 2)));
    assert_eq!(r.shots, 4);
    assert_eq!(r.backend_used, "cpu");
}

#[test]
fn test_performance_profile() {
    let profile = ibm_performance_profile(127);
    assert_eq!(profile.max_qubits, 127);
    assert!(profile.supports_batching);
    assert_eq!(profile.optimal_batch_size, Some(100));
    assert_eq!(f64::from_bits(profile.ops_per_second), 100.0);
    assert_eq!(f64::from_bits(profile.startup_overhead_ms), 5000.0);
}

#[test]
fn braket_profiles_follow_the_device() {
    let sv1 = braket_performance_profile("arn:aws:braket:::device/quantum-simulator/amazon/sv1");
    assert_eq!((sv1.max_qubits, f64::from_bits(sv1.ops_per_second)), (34, 200.0));
    let ionq = braket_performance_profile("arn:aws:braket:us-east-1::device/qpu/ionq/Harmony");
    assert_eq!((ionq.max_qubits, f64::from_bits(ionq.ops_per_second)), (11, 10.0));
    let oqc = braket_performance_profile("arn:aws:braket:eu-west-2::device/qpu/oqc/Lucy");
    assert_eq!(oqc.max_qubits, 8);
    assert_eq!(oqc.optimal_batch_size, Some(50));
    assert_eq!(oqc.memory_per_qubit_bytes, 0);
}

#[test]
fn token_configuration_is_usable() {
    let config = token_config("secret-token".to_string());
    assert!(config.enabled);
    assert_eq!(config.api_url, "https://auth.quantum-computing.ibm.com/api");
    assert_eq!(config.default_backend, "ibmq_qasm_simulator");
    assert_eq!(config.max_qubits, 127);
    assert!(check_ibm_config(&config).is_ok());
    let empty = token_config(String::new());
    assert_eq!(check_ibm_config(&empty).unwrap_err().to_string(), "Circuit construction error: IBM Quantum API token is empty");
}

#[test]
fn apikey_json_gives_a_token_config() {
    let config = ibm_config_from_apikey_json("{\"apikey\": \"abc123\"}").unwrap();
    assert!(config.enabled);
    assert_eq!(config.api_token, "abc123");
    assert_eq!(config.default_backend, "ibmq_qasm_simulator");
    assert_eq!(config.max_qubits, 127);
}

#[test]
fn apikey_json_errors() {
    let missing = ibm_config_from_apikey_json("{\"token\": \"abc\"}").unwrap_err();
    assert_eq!(missing.to_string(), "Circuit construction error: API key not found in JSON file");
    let not_text = ibm_config_from_apikey_json("{\"apikey\": 5}").unwrap_err();
    assert_eq!(not_text.to_string(), "Circuit construction error: API key not found in JSON file");
    let empty = ibm_config_from_apikey_json("{\"apikey\": \"\"}").unwrap_err();
    assert_eq!(empty.to_string(), "Circuit construction error: IBM Quantum API token is empty");
    match ibm_config_from_apikey_json("not json") {
        Err(MyQuatError::IoError(m)) => assert!(m.starts_with("Failed to parse apikey.json: ")),
        _ => panic!("Expected a parse error"),
    }
}
