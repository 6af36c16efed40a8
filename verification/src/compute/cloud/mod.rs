//! Cloud backends: job bookkeeping, device descriptions and the decisions
//! of the loops that poll the services.

pub mod aws_backend;
pub mod ibm_backend;
pub mod job_manager;
pub mod polling;
