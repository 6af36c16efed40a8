//! Compute backends: kinds and selection, cloud configuration and job
//! bookkeeping, GPU selection, circuit analysis, and the two-qubit gates
//! that only move amplitudes or flip their signs.

pub mod backend_manager;
pub mod cloud;
pub mod cloud_config;
pub mod gpu_backend;
pub mod parallel_analysis;
pub mod simd;
pub mod simd_two_qubit_gates;
pub mod types;
