use myquat::circuit::QuantumCircuit;
use myquat::deoptimization::kak::{
    extract_angle, identify_patterns, match_xx_pattern, match_yy_pattern, match_zz_pattern, KakPattern, PauliPair,
};
use myquat::gates::{Gate, Parameter, StandardGate};
use std::f64::consts::PI;

fn gate(g: StandardGate, parameters: Vec<Parameter>) -> Gate {
    Gate { gate_type: g, parameters, label: None }
}

fn zz_circuit(angle: f64) -> QuantumCircuit {
    let mut circuit = QuantumCircuit::new(2, 0);
    circuit.h(0).unwrap();
    circuit.cx(0, 1).unwrap();
    circuit.rz(1, Parameter::Float(angle.to_bits())).unwrap();
    circuit.cx(0, 1).unwrap();
    circuit.h(0).unwrap();
    circuit
}

#[test]
fn test_extract_angle() {
    // Create Rz gate with float parameter
    let g = gate(StandardGate::Rz, vec![Parameter::Float((PI / 4.0).to_bits())]);

    let angle = extract_angle(&g);
    assert!(angle.is_some());
    assert!((f64::from_bits(angle.unwrap()) - PI / 4.0).abs() < 1e-10);
}

#[test]
fn test_extract_angle_no_params() {
    // Create H gate (no parameters)
    let g = gate(StandardGate::H, vec![]);

    let angle = extract_angle(&g);
    assert!(angle.is_none());
}

#[test]
fn test_match_zz_pattern_structure() {
    // Create ZZ pattern gates
    let gates = vec![
        gate(StandardGate::H, vec![]),
        gate(StandardGate::CX, vec![]),
        gate(StandardGate::Rz, vec![Parameter::Float((PI / 4.0).to_bits())]),
        gate(StandardGate::CX, vec![]),
        gate(StandardGate::H, vec![]),
    ];

    let qubits = vec![0, 0, 1, 1, 0, 1, 0];

    let result = match_zz_pattern(&gates, &qubits);
    assert!(result.is_some());

    let rot = result.unwrap();
    assert_eq!(rot.pauli.pauli_string(), "ZZ");
    assert!((f64::from_bits(rot.angle) - PI / 4.0).abs() < 1e-10);
    assert!(f64::from_bits(rot.pauli.confidence()) >= 0.9);
}

#[test]
fn test_match_zz_pattern_wrong_length() {
    // Wrong number of gates
    let gates = vec![gate(StandardGate::H, vec![]), gate(StandardGate::CX, vec![])];

    let qubits = vec![0, 0, 1];

    let result = match_zz_pattern(&gates, &qubits);
    assert!(result.is_none());
}

#[test]
fn test_match_zz_pattern_wrong_gates() {
    // Wrong gate types
    let gates = vec![
        gate(StandardGate::X, vec![]), // Should be H
        gate(StandardGate::CX, vec![]),
        gate(StandardGate::Rz, vec![Parameter::Float((PI / 4.0).to_bits())]),
        gate(StandardGate::CX, vec![]),
        gate(StandardGate::H, vec![]),
    ];

    let qubits = vec![0, 0, 1, 1, 0, 1, 0];

    let result = match_zz_pattern(&gates, &qubits);
    assert!(result.is_none());
}

#[test]
fn test_identify_patterns_empty_circuit() {
    let circuit = QuantumCircuit::new(2, 0);

    let patterns = identify_patterns(circuit.instructions(), 10, true, true);
    assert_eq!(patterns.len(), 0);
}

#[test]
fn test_identify_patterns_with_zz() {
    // Add ZZ pattern: H(0) CX(0,1) Rz(θ,1) CX(0,1) H(0)
    let circuit = zz_circuit(PI / 4.0);

    let patterns = identify_patterns(circuit.instructions(), 10, true, true);
    // Should identify at least one pattern
    assert!(!patterns.is_empty());
}

#[test]
fn test_identify_zz_position_and_qubits() {
    let mut circuit = QuantumCircuit::new(3, 0);
    circuit.x(2).unwrap();
    circuit.h(1).unwrap();
    circuit.cx(1, 2).unwrap();
    circuit.rz(2, Parameter::Float(0.25f64.to_bits())).unwrap();
    circuit.cx(1, 2).unwrap();
    circuit.h(1).unwrap();
    let patterns = identify_patterns(circuit.instructions(), 10, true, true);
    assert_eq!(
        patterns,
        vec![(1, KakPattern { pauli: PauliPair::ZZ, angle: 0.25f64.to_bits(), q0: 1, q1: 2 })]
    );
    // A window below five instructions finds nothing; ZZ matches can be refused.
    assert!(identify_patterns(circuit.instructions(), 4, true, true).is_empty());
    assert!(identify_patterns(circuit.instructions(), 10, false, true).is_empty());
}

#[test]
fn test_zz_with_inconsistent_qubits_is_not_matched() {
    let mut circuit = QuantumCircuit::new(3, 0);
    circuit.h(0).unwrap();
    circuit.cx(0, 1).unwrap();
    circuit.rz(2, Parameter::Float(0.25f64.to_bits())).unwrap();
    circuit.cx(0, 1).unwrap();
    circuit.h(0).unwrap();
    assert!(identify_patterns(circuit.instructions(), 10, true, true).is_empty());
    // A symbolic angle is not matched either.
    let mut symbolic = QuantumCircuit::new(2, 0);
    symbolic.h(0).unwrap();
    symbolic.cx(0, 1).unwrap();
    symbolic.rz(1, Parameter::Symbol("t".to_string())).unwrap();
    symbolic.cx(0, 1).unwrap();
    symbolic.h(0).unwrap();
    assert!(identify_patterns(symbolic.instructions(), 10, true, true).is_empty());
}

#[test]
fn test_identify_xx_and_yy() {
    let half = (PI / 2.0).to_bits();
    let neg = (-PI / 2.0).to_bits();
    let mut xx = QuantumCircuit::new(2, 0);
    xx.ry(0, Parameter::Float(neg)).unwrap();
    xx.ry(1, Parameter::Float(neg)).unwrap();
    xx.cx(0, 1).unwrap();
    xx.rz(1, Parameter::Float(0.3f64.to_bits())).unwrap();
    xx.cx(0, 1).unwrap();
    xx.ry(0, Parameter::Float(half)).unwrap();
    xx.ry(1, Parameter::Float(half)).unwrap();
    let found = identify_patterns(xx.instructions(), 10, true, true);
    assert_eq!(found, vec![(0, KakPattern { pauli: PauliPair::XX, angle: 0.3f64.to_bits(), q0: 0, q1: 1 })]);
    assert!(identify_patterns(xx.instructions(), 6, true, true).is_empty());
    assert!(identify_patterns(xx.instructions(), 10, true, false).is_empty());

    let gates = vec![
        gate(StandardGate::Rx, vec![Parameter::Float(half)]),
        gate(StandardGate::Rx, vec![Parameter::Float(half)]),
        gate(StandardGate::CX, vec![]),
        gate(StandardGate::Rz, vec![Parameter::Float(0.7f64.to_bits())]),
        gate(StandardGate::CX, vec![]),
        gate(StandardGate::Rx, vec![Parameter::Float(neg)]),
        gate(StandardGate::Rx, vec![Parameter::Float(neg)]),
    ];
    let qubits = vec![3, 4, 3, 4, 4, 3, 4, 3, 4];
    let yy = match_yy_pattern(&gates, &qubits).unwrap();
    assert_eq!(yy, KakPattern { pauli: PauliPair::YY, angle: 0.7f64.to_bits(), q0: 3, q1: 4 });
    assert_eq!(yy.pauli.pauli_string(), "YY");
    assert_eq!(f64::from_bits(yy.pauli.confidence()), 0.9);
    assert!(match_xx_pattern(&gates, &qubits).is_none());
}
