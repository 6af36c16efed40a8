use myquat::compute::types::{is_compatible, PerformanceProfile};
use myquat::circuit::{Instruction, QuantumCircuit};
use myquat::compute::parallel_analysis::ParallelCircuitAnalysis;
use myquat::gates::StandardGate;

fn sample() -> QuantumCircuit {
    let mut circuit_data = QuantumCircuit::new(2, 0);
    circuit_data.h(0).unwrap();
    circuit_data.x(1).unwrap();
    circuit_data.cx(0, 1).unwrap();
    circuit_data
}

#[test]
fn test_parallel_gate_counting() {
    let circuit_data = sample();

    let h_count = ParallelCircuitAnalysis::count_gates_parallel(&circuit_data, StandardGate::H);
    assert_eq!(h_count, 1);

    let x_count = ParallelCircuitAnalysis::count_gates_parallel(&circuit_data, StandardGate::X);
    assert_eq!(x_count, 1);
}

#[test]
fn test_parallel_qubit_usage() {
    let circuit_data = sample();

    let usage = ParallelCircuitAnalysis::analyze_qubit_usage_parallel(&circuit_data);
    assert_eq!(usage.len(), 2);
    assert!(usage[0] > 0);
    assert!(usage[1] > 0);
}

#[test]
fn test_usage_and_counts_exact() {
    let mut c = QuantumCircuit::new(4, 0);
    c.h(0).unwrap();
    c.h(2).unwrap();
    c.cx(0, 2).unwrap();
    c.append(Instruction::new(StandardGate::CCX, vec![0, 1, 2], vec![])).unwrap();
    assert_eq!(ParallelCircuitAnalysis::analyze_qubit_usage_parallel(&c), vec![3, 1, 3, 0]);
    assert_eq!(ParallelCircuitAnalysis::count_gates_parallel(&c, StandardGate::H), 2);
    assert_eq!(ParallelCircuitAnalysis::count_gates_parallel(&c, StandardGate::CZ), 0);
    assert!(ParallelCircuitAnalysis::analyze_qubit_usage_parallel(&QuantumCircuit::new(0, 0)).is_empty());
}

#[test]
fn test_backend_compatibility() {
    let mut profile = PerformanceProfile::default();
    profile.max_qubits = 2;
    assert!(is_compatible(&profile, &QuantumCircuit::new(2, 0)));
    assert!(!is_compatible(&profile, &QuantumCircuit::new(3, 0)));
}

#[test]
fn depth_from_dependency_lists() {
    assert_eq!(ParallelCircuitAnalysis::calculate_depth_parallel(&vec![]), 0);
    assert_eq!(ParallelCircuitAnalysis::calculate_depth_parallel(&vec![vec![], vec![]]), 1);
    assert_eq!(ParallelCircuitAnalysis::calculate_depth_parallel(&vec![vec![], vec![0], vec![0, 1]]), 2);
}
