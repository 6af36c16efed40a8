//! Configuration of the cloud backends: credentials, defaults, selection
//! preferences and the checks a configuration must pass before use.

use vstd::prelude::*;
use vstd::string::StringExecFns;
use crate::error::{is_circuit_error, MyQuatError, Result};

verus! {

/// Global settings
#[derive(Debug, Clone)]
pub struct GlobalConfig {
    pub timeout_secs: u64,
    pub max_retries: u32,
    pub retry_delay_secs: u64,
    pub enable_cache: bool,
    pub cache_dir: String,
}

/// IBM Quantum configuration
#[derive(Debug, Clone)]
pub struct IbmQuantumConfig {
    pub enabled: bool,
    pub api_token: String,
    pub api_url: String,
    pub hub: Option<String>,
    pub group: Option<String>,
    pub project: Option<String>,
    pub default_backend: String,
    pub prefer_simulator: bool,
    pub max_qubits: usize,
}

/// AWS Braket configuration
#[derive(Debug, Clone)]
pub struct AwsBraketConfig {
    pub enabled: bool,
    pub access_key_id: String,
    pub secret_access_key: String,
    pub session_token: Option<String>,
    pub region: String,
    pub s3_bucket: String,
    pub s3_prefix: String,
    pub default_backend: String,
    pub max_qubits: usize,
}

/// Azure Quantum configuration
#[derive(Debug, Clone)]
pub struct AzureQuantumConfig {
    pub enabled: bool,
    pub subscription_id: String,
    pub resource_group: String,
    pub workspace_name: String,
    pub location: String,
    pub storage_account: String,
    pub storage_container: String,
    pub default_provider: String,
    pub default_target: String,
    pub max_qubits: usize,
}

/// Google Quantum AI configuration
#[derive(Debug, Clone)]
pub struct GoogleQuantumConfig {
    pub enabled: bool,
    pub project_id: String,
    pub service_account_key: Option<String>,
    pub service_account_key_base64: Option<String>,
    pub processor_id: String,
    pub default_engine: String,
    pub max_qubits: usize,
}

/// Backend selection preferences
#[derive(Debug, Clone)]
pub struct PreferencesConfig {
    pub backend_priority: Vec<String>,
    pub auto_select: bool,
    pub prefer_simulators: bool,
    /// Encoded (IEEE-754 binary64) largest cost accepted per job
    pub max_cost_per_job: u64,
}

/// Job management configuration
#[derive(Debug, Clone)]
pub struct JobManagementConfig {
    pub enable_result_cache: bool,
    pub cache_ttl_secs: u64,
    pub auto_poll: bool,
    pub poll_interval_secs: u64,
    pub max_wait_time_secs: u64,
}

/// Logging configuration
#[derive(Debug, Clone)]
pub struct LoggingConfig {
    pub level: String,
    pub log_api_calls: bool,
    pub log_file: Option<String>,
}

/// Complete cloud configuration
#[derive(Debug, Clone)]
pub struct CloudConfig {
    pub global: GlobalConfig,
    pub ibm_quantum: Option<IbmQuantumConfig>,
    pub aws_braket: Option<AwsBraketConfig>,
    pub azure_quantum: Option<AzureQuantumConfig>,
    pub google_quantum: Option<GoogleQuantumConfig>,
    pub preferences: PreferencesConfig,
    pub job_management: JobManagementConfig,
    pub logging: LoggingConfig,
}

/// Encoding of the default largest cost per job, 10.0.
pub const DEFAULT_MAX_COST_BITS: u64 = 0x4024000000000000u64;

/// Default request timeout in seconds
pub fn default_timeout() -> (r: u64)
    ensures
        r == 300,
{
    300
}

/// Default delay between retries in seconds
pub fn default_retry_delay() -> (r: u64)
    ensures
        r == 5,
{
    5
}

/// Default lifetime of cached results in seconds (seven days)
pub fn default_cache_ttl() -> (r: u64)
    ensures
        r == 604800,
{
    604800
}

/// Default interval between job status polls in seconds
pub fn default_poll_interval() -> (r: u64)
    ensures
        r == 10,
{
    10
}

/// Default longest wait for a job in seconds
pub fn default_max_wait() -> (r: u64)
    ensures
        r == 3600,
{
    3600
}

/// Default number of retries
pub fn default_retries() -> (r: u32)
    ensures
        r == 3,
{
    3
}

/// Default qubit limit for IBM Quantum
pub fn default_ibm_max_qubits() -> (r: usize)
    ensures
        r == 127,
{
    127
}

/// Default qubit limit for AWS Braket
pub fn default_aws_max_qubits() -> (r: usize)
    ensures
        r == 34,
{
    34
}

/// Default qubit limit for Azure Quantum
pub fn default_azure_max_qubits() -> (r: usize)
    ensures
        r == 29,
{
    29
}

/// Default qubit limit for Google Quantum AI
pub fn default_google_max_qubits() -> (r: usize)
    ensures
        r == 23,
{
    23
}

/// Default for switches that are on unless configured otherwise
pub fn default_true() -> (r: bool)
    ensures
        r,
{
    true
}

/// Default cache directory
pub fn default_cache_dir() -> (r: String)
    ensures
        r@ == ".myquat_cache"@,
{
    String::from_str(".myquat_cache")
}

/// Default IBM Quantum API address
pub fn default_ibm_api_url() -> (r: String)
    ensures
        r@ == "https://auth.quantum-computing.ibm.com/api"@,
{
    String::from_str("https://auth.quantum-computing.ibm.com/api")
}

/// Default IBM Quantum backend
pub fn default_ibm_backend() -> (r: String)
    ensures
        r@ == "ibmq_qasm_simulator"@,
{
    String::from_str("ibmq_qasm_simulator")
}

/// Default AWS region
pub fn default_aws_region() -> (r: String)
    ensures
        r@ == "us-east-1"@,
{
    String::from_str("us-east-1")
}

/// Default S3 bucket for results
pub fn default_aws_bucket() -> (r: String)
    ensures
        r@ == "amazon-braket-results"@,
{
    String::from_str("amazon-braket-results")
}

/// Default S3 key prefix for results
pub fn default_aws_prefix() -> (r: String)
    ensures
        r@ == "myquat-results"@,
{
    String::from_str("myquat-results")
}

/// Default AWS Braket device
pub fn default_aws_backend() -> (r: String)
    ensures
        r@ == "arn:aws:braket:::device/quantum-simulator/amazon/sv1"@,
{
    String::from_str("arn:aws:braket:::device/quantum-simulator/amazon/sv1")
}

/// Default Azure location
pub fn default_azure_location() -> (r: String)
    ensures
        r@ == "eastus"@,
{
    String::from_str("eastus")
}

/// Default Azure storage container
pub fn default_azure_container() -> (r: String)
    ensures
        r@ == "quantum-results"@,
{
    String::from_str("quantum-results")
}

/// Default Azure Quantum provider
pub fn default_azure_provider() -> (r: String)
    ensures
        r@ == "ionq"@,
{
    String::from_str("ionq")
}

/// Default Azure Quantum target
pub fn default_azure_target() -> (r: String)
    ensures
        r@ == "ionq.simulator"@,
{
    String::from_str("ionq.simulator")
}

/// Default Google processor
pub fn default_google_processor() -> (r: String)
    ensures
        r@ == "rainbow"@,
{
    String::from_str("rainbow")
}

/// Default Google engine
pub fn default_google_engine() -> (r: String)
    ensures
        r@ == "cirq-engine"@,
{
    String::from_str("cirq-engine")
}

/// Default log level
pub fn default_log_level() -> (r: String)
    ensures
        r@ == "info"@,
{
    String::from_str("info")
}

/// Default order in which backends are tried
pub fn default_backend_priority() -> (r: Vec<String>)
    ensures
        r@.map_values(|s: String| s@) == default_priority_names(),
{
    let mut v: Vec<String> = Vec::new();
    v.push(String::from_str("ibm_quantum"));
    v.push(String::from_str("aws_braket"));
    v.push(String::from_str("azure_quantum"));
    v.push(String::from_str("google_quantum"));
    assert(v@.map_values(|s: String| s@) =~= default_priority_names());
    v
}

/// Encoded default largest cost per job
pub fn default_max_cost() -> (r: u64)
    ensures
        r == DEFAULT_MAX_COST_BITS,
{
    DEFAULT_MAX_COST_BITS
}

/// Names of the backends in the default priority order.
pub open spec fn default_priority_names() -> Seq<Seq<char>> {
    seq!["ibm_quantum"@, "aws_braket"@, "azure_quantum"@, "google_quantum"@]
}

/// `c` is the default configuration: no backend configured, every setting at its default.
pub open spec fn is_default_config(c: CloudConfig) -> bool {
    &&& default_settings(c)
    &&& c.ibm_quantum is None
    &&& c.aws_braket is None
    &&& c.azure_quantum is None
    &&& c.google_quantum is None
}

/// Every setting of `c` other than the backends is at its default.
pub open spec fn default_settings(c: CloudConfig) -> bool {
    &&& c.global.timeout_secs == 300
    &&& c.global.max_retries == 3
    &&& c.global.retry_delay_secs == 5
    &&& c.global.enable_cache
    &&& c.global.cache_dir@ == ".myquat_cache"@
    &&& c.preferences.backend_priority@.map_values(|s: String| s@) == default_priority_names()
    &&& c.preferences.auto_select
    &&& c.preferences.prefer_simulators
    &&& c.preferences.max_cost_per_job == DEFAULT_MAX_COST_BITS
    &&& c.job_management.enable_result_cache
    &&& c.job_management.cache_ttl_secs == 604800
    &&& c.job_management.auto_poll
    &&& c.job_management.poll_interval_secs == 10
    &&& c.job_management.max_wait_time_secs == 3600
    &&& c.logging.level@ == "info"@
    &&& !c.logging.log_api_calls
    &&& c.logging.log_file is None
}

impl Default for CloudConfig {
    fn default() -> (r: Self)
        ensures
            is_default_config(r),
    {
        CloudConfig {
            global: GlobalConfig {
                timeout_secs: default_timeout(),
                max_retries: default_retries(),
                retry_delay_secs: default_retry_delay(),
                enable_cache: default_true(),
                cache_dir: default_cache_dir(),
            },
            ibm_quantum: None,
            aws_braket: None,
            azure_quantum: None,
            google_quantum: None,
            preferences: PreferencesConfig {
                backend_priority: default_backend_priority(),
                auto_select: default_true(),
                prefer_simulators: default_true(),
                max_cost_per_job: default_max_cost(),
            },
            job_management: JobManagementConfig {
                enable_result_cache: default_true(),
                cache_ttl_secs: default_cache_ttl(),
                auto_poll: default_true(),
                poll_interval_secs: default_poll_interval(),
                max_wait_time_secs: default_max_wait(),
            },
            logging: LoggingConfig { level: default_log_level(), log_api_calls: false, log_file: None },
        }
    }
}

/// Settings read from the process environment, each present or not.
pub struct EnvironmentSettings {
    pub ibm_token: Option<String>,
    pub ibm_url: Option<String>,
    pub ibm_hub: Option<String>,
    pub ibm_group: Option<String>,
    pub ibm_project: Option<String>,
    pub ibm_backend: Option<String>,
    pub aws_access_key_id: Option<String>,
    pub aws_secret_access_key: Option<String>,
    pub aws_session_token: Option<String>,
    pub aws_region: Option<String>,
    pub aws_bucket: Option<String>,
    pub aws_prefix: Option<String>,
    pub aws_backend: Option<String>,
}

/// The text of a setting, or the default when it is absent.
pub open spec fn or_default(s: Option<String>, d: Seq<char>) -> Seq<char> {
    match s {
        Some(v) => v@,
        None => d,
    }
}

fn or_else(s: Option<String>, d: String) -> (r: String)
    ensures
        r@ == or_default(s, d@),
{
    match s {
        Some(v) => v,
        None => d,
    }
}

/// The names of the enabled backends of `c`, in the fixed order IBM, AWS, Azure, Google.
pub open spec fn enabled_names(c: CloudConfig) -> Seq<Seq<char>> {
    let a = if c.ibm_quantum matches Some(x) && x.enabled { seq!["ibm_quantum"@] } else { Seq::empty() };
    let b = if c.aws_braket matches Some(x) && x.enabled { seq!["aws_braket"@] } else { Seq::empty() };
    let z = if c.azure_quantum matches Some(x) && x.enabled { seq!["azure_quantum"@] } else { Seq::empty() };
    let g = if c.google_quantum matches Some(x) && x.enabled { seq!["google_quantum"@] } else { Seq::empty() };
    a + b + z + g
}

/// The message of the first check that `c` fails, if any.
pub open spec fn config_problem(c: CloudConfig) -> Option<Seq<char>> {
    if enabled_names(c).len() == 0 {
        Some("No cloud backends are enabled"@)
    } else if c.ibm_quantum matches Some(x) && x.enabled && x.api_token@.len() == 0 {
        Some("IBM Quantum is enabled but api_token is empty"@)
    } else if c.aws_braket matches Some(x) && x.enabled && x.access_key_id@.len() == 0 {
        Some("AWS Braket is enabled but access_key_id is empty"@)
    } else if c.aws_braket matches Some(x) && x.enabled && x.secret_access_key@.len() == 0 {
        Some("AWS Braket is enabled but secret_access_key is empty"@)
    } else {
        None
    }
}

impl CloudConfig {
    /// Build the configuration that the environment describes: the defaults,
    /// with IBM Quantum configured when its token is set, and AWS Braket
    /// configured when both its access key and secret are set
    pub fn from_environment(env: EnvironmentSettings) -> (r: Result<Self>)
        ensures
            r matches Ok(c) && {
                &&& default_settings(c)
                &&& c.azure_quantum is None
                &&& c.google_quantum is None
                &&& match env.ibm_token {
                    None => c.ibm_quantum is None,
                    Some(token) => c.ibm_quantum matches Some(i) && {
                        &&& i.enabled
                        &&& i.api_token@ == token@
                        &&& i.api_url@ == or_default(env.ibm_url, "https://auth.quantum-computing.ibm.com/api"@)
                        &&& i.hub == env.ibm_hub
                        &&& i.group == env.ibm_group
                        &&& i.project == env.ibm_project
                        &&& i.default_backend@ == or_default(env.ibm_backend, "ibmq_qasm_simulator"@)
                        &&& i.prefer_simulator
                        &&& i.max_qubits == 127
                    },
                }
                &&& if env.aws_access_key_id is Some && env.aws_secret_access_key is Some {
                    c.aws_braket matches Some(a) && {
                        &&& a.enabled
                        &&& a.access_key_id@ == env.aws_access_key_id.unwrap()@
                        &&& a.secret_access_key@ == env.aws_secret_access_key.unwrap()@
                        &&& a.session_token == env.aws_session_token
                        &&& a.region@ == or_default(env.aws_region, "us-east-1"@)
                        &&& a.s3_bucket@ == or_default(env.aws_bucket, "amazon-braket-results"@)
                        &&& a.s3_prefix@ == or_default(env.aws_prefix, "myquat-results"@)
                        &&& a.default_backend@ == or_default(env.aws_backend, "arn:aws:braket:::device/quantum-simulator/amazon/sv1"@)
                        &&& a.max_qubits == 34
                    }
                } else {
                    c.aws_braket is None
                }
            },
    {
        let mut config = CloudConfig::default();
        let EnvironmentSettings {
            ibm_token,
            ibm_url,
            ibm_hub,
            ibm_group,
            ibm_project,
            ibm_backend,
            aws_access_key_id,
            aws_secret_access_key,
            aws_session_token,
            aws_region,
            aws_bucket,
            aws_prefix,
            aws_backend,
        } = env;
        match ibm_token {
            Some(token) => {
                config.ibm_quantum = Some(IbmQuantumConfig {
                    enabled: true,
                    api_token: token,
                    api_url: or_else(ibm_url, default_ibm_api_url()),
                    hub: ibm_hub,
                    group: ibm_group,
                    project: ibm_project,
                    default_backend: or_else(ibm_backend, default_ibm_backend()),
                    prefer_simulator: true,
                    max_qubits: default_ibm_max_qubits(),
                });
            },
            None => {},
        }
        match (aws_access_key_id, aws_secret_access_key) {
            (Some(key_id), Some(secret)) => {
                config.aws_braket = Some(AwsBraketConfig {
                    enabled: true,
                    access_key_id: key_id,
                    secret_access_key: secret,
                    session_token: aws_session_token,
                    region: or_else(aws_region, default_aws_region()),
                    s3_bucket: or_else(aws_bucket, default_aws_bucket()),
                    s3_prefix: or_else(aws_prefix, default_aws_prefix()),
                    default_backend: or_else(aws_backend, default_aws_backend()),
                    max_qubits: default_aws_max_qubits(),
                });
            },
            _ => {},
        }
        Ok(config)
    }

    /// Names of the enabled backends, in the order IBM, AWS, Azure, Google
    pub fn enabled_backends(&self) -> (r: Vec<&'static str>)
        ensures
            r@.map_values(|s: &str| s@) == enabled_names(*self),
    {
        let mut backends: Vec<&'static str> = Vec::new();
        let ghost c = *self;
        let ibm_on = match &self.ibm_quantum { Some(x) => x.enabled, None => false };
        let aws_on = match &self.aws_braket { Some(x) => x.enabled, None => false };
        let azure_on = match &self.azure_quantum { Some(x) => x.enabled, None => false };
        let google_on = match &self.google_quantum { Some(x) => x.enabled, None => false };
        if ibm_on {
            backends.push("ibm_quantum");
        }
        if aws_on {
            backends.push("aws_braket");
        }
        if azure_on {
            backends.push("azure_quantum");
        }
        if google_on {
            backends.push("google_quantum");
        }
        assert(backends@.map_values(|s: &str| s@) =~= enabled_names(c));
        backends
    }

    /// Check that at least one backend is enabled and that every enabled
    /// backend has its credentials
    pub fn validate(&self) -> (r: Result<()>)
        ensures
            match config_problem(*self) {
                None => r is Ok,
                Some(msg) => r matches Err(e) && is_circuit_error(e, msg),
            },
    {
        let enabled = self.enabled_backends();
        if enabled.len() == 0 {
            return Err(MyQuatError::circuit_error("No cloud backends are enabled"));
        }
        match &self.ibm_quantum {
            Some(ibm) => {
                if ibm.enabled && ibm.api_token.as_str().is_empty() {
                    return Err(MyQuatError::circuit_error("IBM Quantum is enabled but api_token is empty"));
                }
            },
            None => {},
        }
        match &self.aws_braket {
            Some(aws) => {
                if aws.enabled {
                    if aws.access_key_id.as_str().is_empty() {
                        return Err(MyQuatError::circuit_error("AWS Braket is enabled but access_key_id is empty"));
                    }
                    if aws.secret_access_key.as_str().is_empty() {
                        return Err(MyQuatError::circuit_error("AWS Braket is enabled but secret_access_key is empty"));
                    }
                }
            },
            None => {},
        }
        Ok(())
    }
}

} // verus!
