//! Recognition of algorithm structure in circuits: variational ansatz
//! layers, Pauli-rotation gadgets, decomposed two-qubit Pauli rotations and
//! the angles of Trotter steps; and the benchmark circuits it is measured on.

pub mod benchmark;
pub mod kak;
pub mod qdrift_strategy;
pub mod template;
pub mod temporal;
pub mod trotter_template;
pub mod vqe_templates;
