use std::f64::consts::{FRAC_PI_2, PI};
use myquat::circuit::QuantumCircuit;
use myquat::gate_library::{GateDecomposer, GateSet};
use myquat::gates::StandardGate;

#[test]
fn test_decomposer_creation() {
    let decomposer = GateDecomposer::new(GateSet::CliffordT);
    assert_eq!(decomposer.gate_set(), GateSet::CliffordT);
}

#[test]
fn test_hadamard_decomposition() {
    let decomposer = GateDecomposer::new(GateSet::Universal);
    let mut circuit = QuantumCircuit::new(1, 0);

    decomposer.decompose_hadamard(&mut circuit, 0).unwrap();
    assert!(circuit.size() > 0);
}

#[test]
fn test_pauli_decompositions() {
    let decomposer = GateDecomposer::new(GateSet::CliffordT);
    let mut circuit = QuantumCircuit::new(1, 0);

    decomposer.decompose_x(&mut circuit, 0).unwrap();
    decomposer.decompose_y(&mut circuit, 0).unwrap();
    decomposer.decompose_z(&mut circuit, 0).unwrap();

    assert!(circuit.size() > 0);
}

#[test]
fn test_swap_decomposition() {
    let decomposer = GateDecomposer::new(GateSet::Universal);
    let mut circuit = QuantumCircuit::new(2, 0);

    decomposer.decompose_swap(&mut circuit, 0, 1).unwrap();
    assert_eq!(circuit.size(), 3);
}

#[test]
fn test_toffoli_decomposition() {
    let decomposer = GateDecomposer::new(GateSet::CliffordT);
    let mut circuit = QuantumCircuit::new(3, 0);

    decomposer.decompose_toffoli(&mut circuit, 0, 1, 2).unwrap();
    assert!(circuit.size() > 10);
}

#[test]
fn test_gate_set_change() {
    let mut decomposer = GateDecomposer::new(GateSet::CliffordT);
    assert_eq!(decomposer.gate_set(), GateSet::CliffordT);

    decomposer.set_gate_set(GateSet::IBM);
    assert_eq!(decomposer.gate_set(), GateSet::IBM);
}

#[test]
fn swap_decomposes_into_three_alternating_cnots() {
    let decomposer = GateDecomposer::new(GateSet::Universal);
    let mut circuit = QuantumCircuit::new(2, 0);
    decomposer.decompose_swap(&mut circuit, 0, 1).unwrap();
    let qs: Vec<Vec<usize>> = circuit.instructions().iter().map(|i| i.qubits.clone()).collect();
    assert_eq!(qs, vec![vec![0, 1], vec![1, 0], vec![0, 1]]);
    assert!(circuit
        .instructions()
        .iter()
        .all(|i| i.gate.gate_type == StandardGate::CX));
}

#[test]
fn decomposition_on_missing_qubit_leaves_circuit_unchanged() {
    let decomposer = GateDecomposer::new(GateSet::Universal);
    let mut circuit = QuantumCircuit::new(1, 0);
    assert!(decomposer.decompose_hadamard(&mut circuit, 3).is_err());
    assert_eq!(circuit.size(), 0);
}

fn rotations(circuit: &QuantumCircuit) -> Vec<(StandardGate, f64)> {
    circuit
        .instructions()
        .iter()
        .map(|i| match &i.gate.parameters[0] {
            myquat::gates::Parameter::Float(b) => (i.gate.gate_type, f64::from_bits(*b)),
            _ => panic!("Expected float parameter"),
        })
        .collect()
}

#[test]
fn universal_hadamard_is_rz_rx_rz() {
    let decomposer = GateDecomposer::new(GateSet::Universal);
    let mut circuit = QuantumCircuit::new(1, 0);
    decomposer.decompose_hadamard(&mut circuit, 0).unwrap();
    assert_eq!(
        rotations(&circuit),
        vec![(StandardGate::Rz, FRAC_PI_2), (StandardGate::Rx, FRAC_PI_2), (StandardGate::Rz, FRAC_PI_2)]
    );
}

#[test]
fn ibm_hadamard_and_x_are_u3_forms() {
    let decomposer = GateDecomposer::new(GateSet::IBM);
    let mut circuit = QuantumCircuit::new(1, 0);
    decomposer.decompose_hadamard(&mut circuit, 0).unwrap();
    assert_eq!(rotations(&circuit), vec![(StandardGate::Rz, PI), (StandardGate::Ry, FRAC_PI_2)]);
    let mut circuit = QuantumCircuit::new(1, 0);
    decomposer.decompose_x(&mut circuit, 0).unwrap();
    assert_eq!(rotations(&circuit), vec![(StandardGate::Rz, PI), (StandardGate::Ry, PI)]);
}

#[test]
fn ibm_rx_conjugates_ry_by_rz() {
    let decomposer = GateDecomposer::new(GateSet::IBM);
    let mut circuit = QuantumCircuit::new(1, 0);
    let angle = myquat::gates::Parameter::Float(0.75f64.to_bits());
    decomposer.decompose_rx(&mut circuit, 0, angle).unwrap();
    assert_eq!(
        rotations(&circuit),
        vec![(StandardGate::Rz, FRAC_PI_2), (StandardGate::Ry, 0.75), (StandardGate::Rz, -FRAC_PI_2)]
    );
}
