//! Error type shared by every fallible operation of the library.

use vstd::prelude::*;
use vstd::string::StringExecFns;
use crate::text::{decimal, decimal_spec};

verus! {

/// Main error type for MyQuat operations
#[derive(Debug, Clone)]
pub enum MyQuatError {
    InvalidQubitIndex { index: usize, num_qubits: usize },
    InvalidClbitIndex { index: usize, num_clbits: usize },
    InvalidParameter { message: String },
    GateError { message: String },
    CircuitError { message: String },
    MatrixDimensionMismatch { expected: usize, actual: usize },
    TranspilerError { message: String },
    QuantumInfoError { message: String },
    SerializationError { message: String },
    IoError(String),
    ParseError { message: String },
    HamiltonianError { message: String },
}

/// Result type alias for MyQuat operations
pub type Result<T> = core::result::Result<T, MyQuatError>;

/// The error is a circuit-construction error carrying exactly `msg`.
pub open spec fn is_circuit_error(e: MyQuatError, msg: Seq<char>) -> bool {
    e matches MyQuatError::CircuitError { message } && message@ == msg
}

impl MyQuatError {
    /// Create a new parameter error
    pub fn invalid_parameter(message: &str) -> (e: Self)
        ensures
            e matches MyQuatError::InvalidParameter { message: m } && m@ == message@,
    {
        MyQuatError::InvalidParameter { message: message.to_owned() }
    }

    /// Create a new gate error
    pub fn gate_error(message: &str) -> (e: Self)
        ensures
            e matches MyQuatError::GateError { message: m } && m@ == message@,
    {
        MyQuatError::GateError { message: message.to_owned() }
    }

    /// Create a new circuit error
    pub fn circuit_error(message: &str) -> (e: Self)
        ensures
            is_circuit_error(e, message@),
    {
        MyQuatError::CircuitError { message: message.to_owned() }
    }

    /// Create a new transpiler error
    pub fn transpiler_error(message: &str) -> (e: Self)
        ensures
            e matches MyQuatError::TranspilerError { message: m } && m@ == message@,
    {
        MyQuatError::TranspilerError { message: message.to_owned() }
    }

    /// Create a new quantum info error
    pub fn quantum_info_error(message: &str) -> (e: Self)
        ensures
            e matches MyQuatError::QuantumInfoError { message: m } && m@ == message@,
    {
        MyQuatError::QuantumInfoError { message: message.to_owned() }
    }

    /// Create a new serialization error
    pub fn serialization_error(message: &str) -> (e: Self)
        ensures
            e matches MyQuatError::SerializationError { message: m } && m@ == message@,
    {
        MyQuatError::SerializationError { message: message.to_owned() }
    }

    /// Create a new parse error
    pub fn parse_error(message: &str) -> (e: Self)
        ensures
            e matches MyQuatError::ParseError { message: m } && m@ == message@,
    {
        MyQuatError::ParseError { message: message.to_owned() }
    }

    /// Create a new I/O error
    pub fn io_error(message: &str) -> (e: Self)
        ensures
            e matches MyQuatError::IoError(m) && m@ == message@,
    {
        MyQuatError::IoError(message.to_owned())
    }

    /// Create a new Hamiltonian error
    pub fn hamiltonian_error(message: &str) -> (e: Self)
        ensures
            e matches MyQuatError::HamiltonianError { message: m } && m@ == message@,
    {
        MyQuatError::HamiltonianError { message: message.to_owned() }
    }
}


/// Human-readable text of an error.
pub open spec fn error_text(e: MyQuatError) -> Seq<char> {
    match e {
        MyQuatError::InvalidQubitIndex { index, num_qubits } => "Invalid qubit index: "@ + decimal_spec(index as nat)
            + " (circuit has "@ + decimal_spec(num_qubits as nat) + " qubits)"@,
        MyQuatError::InvalidClbitIndex { index, num_clbits } => "Invalid classical bit index: "@
            + decimal_spec(index as nat) + " (circuit has "@ + decimal_spec(num_clbits as nat) + " classical bits)"@,
        MyQuatError::InvalidParameter { message } => "Invalid gate parameter: "@ + message@,
        MyQuatError::GateError { message } => "Gate operation error: "@ + message@,
        MyQuatError::CircuitError { message } => "Circuit construction error: "@ + message@,
        MyQuatError::MatrixDimensionMismatch { expected, actual } => "Matrix dimension mismatch: expected "@
            + decimal_spec(expected as nat) + ", got "@ + decimal_spec(actual as nat),
        MyQuatError::TranspilerError { message } => "Transpiler error: "@ + message@,
        MyQuatError::QuantumInfoError { message } => "Quantum information error: "@ + message@,
        MyQuatError::SerializationError { message } => "Serialization error: "@ + message@,
        MyQuatError::IoError(message) => "I/O error: "@ + message@,
        MyQuatError::ParseError { message } => "Parse error: "@ + message@,
        MyQuatError::HamiltonianError { message } => "Hamiltonian error: "@ + message@,
    }
}

fn prefixed(prefix: &str, rest: &str) -> (r: String)
    ensures
        r@ == prefix@ + rest@,
{
    let mut s = String::from_str(prefix);
    s.append(rest);
    s
}

fn two_numbers(a: &str, x: usize, b: &str, y: usize, c: &str) -> (r: String)
    ensures
        r@ == a@ + decimal_spec(x as nat) + b@ + decimal_spec(y as nat) + c@,
{
    let mut s = String::from_str(a);
    let dx = decimal(x);
    s.append(dx.as_str());
    s.append(b);
    let dy = decimal(y);
    s.append(dy.as_str());
    s.append(c);
    s
}

impl MyQuatError {
    /// Human-readable text of the error
    pub fn to_string(&self) -> (r: String)
        ensures
            r@ == error_text(*self),
    {
        match self {
            MyQuatError::InvalidQubitIndex { index, num_qubits } => {
                two_numbers("Invalid qubit index: ", *index, " (circuit has ", *num_qubits, " qubits)")
            },
            MyQuatError::InvalidClbitIndex { index, num_clbits } => two_numbers(
                "Invalid classical bit index: ",
                *index,
                " (circuit has ",
                *num_clbits,
                " classical bits)",
            ),
            MyQuatError::InvalidParameter { message } => prefixed("Invalid gate parameter: ", message.as_str()),
            MyQuatError::GateError { message } => prefixed("Gate operation error: ", message.as_str()),
            MyQuatError::CircuitError { message } => prefixed("Circuit construction error: ", message.as_str()),
            MyQuatError::MatrixDimensionMismatch { expected, actual } => {
                let r = two_numbers("Matrix dimension mismatch: expected ", *expected, ", got ", *actual, "");
                proof {
                    reveal_strlit("");
                    assert(r@ =~= error_text(*self));
                }
                r
            },
            MyQuatError::TranspilerError { message } => prefixed("Transpiler error: ", message.as_str()),
            MyQuatError::QuantumInfoError { message } => prefixed("Quantum information error: ", message.as_str()),
            MyQuatError::SerializationError { message } => prefixed("Serialization error: ", message.as_str()),
            MyQuatError::IoError(message) => prefixed("I/O error: ", message.as_str()),
            MyQuatError::ParseError { message } => prefixed("Parse error: ", message.as_str()),
            MyQuatError::HamiltonianError { message } => prefixed("Hamiltonian error: ", message.as_str()),
        }
    }
}

} // verus!
