//! MyQuat: quantum circuit construction, decomposition, classical control,
//! device routing, error mitigation, structure recognition and compute
//! backend bookkeeping, with machine-checked contracts.

pub mod error;

pub use error::{MyQuatError, Result};
pub mod clock;
pub mod gates;
pub mod circuit;
pub mod custom_gate_matrix;
pub mod gate_library;
pub mod text;
pub mod gate_expansion;
pub mod gate_inverse;
pub mod conditional;
pub mod easy_api;
pub mod device_topology;
pub mod deoptimization;
pub mod density_matrix;
pub mod compute;
pub mod error_handling;
pub mod error_text;
pub mod basis_action;
pub mod error_mitigation;
