use myquat::circuit::QuantumCircuit;
use myquat::deoptimization::qdrift_strategy::{
    extract_gates, is_entangling, qdrift_restore, rotation_label, scan_gates, scan_qdrift_circuit, try_detect_pauli_gadget,
    GateRecord, TermTally,
};
use myquat::gates::Parameter;
use myquat::gates::StandardGate;

fn rec(g: StandardGate, qs: Vec<usize>) -> GateRecord {
    GateRecord { gate_type: g, qubits: qs, param: None }
}

#[test]
fn rotation_labels() {
    assert_eq!(rotation_label(StandardGate::Rx), Some("X"));
    assert_eq!(rotation_label(StandardGate::Rz), Some("Z"));
    assert_eq!(rotation_label(StandardGate::H), None);
    assert!(is_entangling(StandardGate::CZ));
    assert!(!is_entangling(StandardGate::Swap));
}

#[test]
fn two_qubit_gadget_is_recognised() {
    let gates = vec![
        rec(StandardGate::CX, vec![0, 1]),
        rec(StandardGate::Rz, vec![1]),
        rec(StandardGate::CX, vec![0, 1]),
    ];
    assert_eq!(try_detect_pauli_gadget(&gates, 1), Some(("ZZ", 0, 1)));
    assert_eq!(try_detect_pauli_gadget(&gates, 0), None);
    let lone = vec![rec(StandardGate::Ry, vec![2])];
    assert_eq!(try_detect_pauli_gadget(&lone, 0), Some(("Y", 2, 2)));
}

/// N single-Pauli rotations, all at theta = 2/N, cycling X, Y, Z over the qubits.
fn build_qdrift_circuit(num_qubits: usize, num_samples: usize) -> QuantumCircuit {
    let mut circuit = QuantumCircuit::new(num_qubits, 0);
    let theta = (2.0 / num_samples as f64).to_bits();
    for i in 0..num_samples {
        let q = i % num_qubits;
        match i % 3 {
            0 => circuit.rx(q, Parameter::Float(theta)).unwrap(),
            1 => circuit.ry(q, Parameter::Float(theta)).unwrap(),
            _ => circuit.rz(q, Parameter::Float(theta)).unwrap(),
        };
    }
    circuit
}

#[test]
fn test_detect_qdrift_basic() {
    let circuit = build_qdrift_circuit(4, 30);
    let scan = scan_qdrift_circuit(&circuit).expect("thirty rotations are scanned");
    assert_eq!(scan.rotation_count, 30);
    assert!(scan.terms.len() >= 2);
    let labels: Vec<&str> = scan.terms.iter().map(|t| t.pauli.as_str()).collect();
    assert_eq!(labels, vec!["X", "Y", "Z"]);
    assert!(scan.terms.iter().all(|t| t.count == 10));
    assert_eq!(scan.terms[0].qubits, vec![0]);
    assert_eq!(scan.angles.len(), 30);
    assert!(scan.angles.iter().all(|&a| f64::from_bits(a) == 2.0 / 30.0));
    assert_eq!(scan.label_changes, 29);
    assert_eq!(scan.entangling_count, 0);
}

#[test]
fn test_detect_qdrift_empty() {
    let circuit = QuantumCircuit::new(2, 0);
    assert!(scan_qdrift_circuit(&circuit).is_none());
}

#[test]
fn test_detect_qdrift_too_small() {
    let mut circuit = QuantumCircuit::new(2, 0);
    circuit.rx(0, Parameter::Float(0.1f64.to_bits())).unwrap();
    assert!(scan_qdrift_circuit(&circuit).is_none());
}

#[test]
fn test_qdrift_with_two_qubit_terms() {
    let mut circuit = QuantumCircuit::new(4, 0);
    let theta = Parameter::Float(0.1f64.to_bits());
    for _ in 0..10 {
        circuit.cx(0, 1).unwrap();
        circuit.rz(1, theta.clone()).unwrap();
        circuit.cx(0, 1).unwrap();
        circuit.rx(2, theta.clone()).unwrap();
    }
    let scan = scan_qdrift_circuit(&circuit).unwrap();
    let zz = scan.terms.iter().find(|t| t.pauli == "ZZ").expect("Missing ZZ term");
    assert_eq!(zz.qubits, vec![0, 1]);
    assert_eq!(zz.count, 10);
    let x = scan.terms.iter().find(|t| t.pauli == "X").expect("Missing X term");
    assert_eq!(x.qubits, vec![2]);
    assert_eq!(scan.rotation_count, 20);
    // the closing CX of each gadget is not counted again
    assert_eq!(scan.entangling_count, 10);
    assert_eq!(scan.label_changes, 19);
}

#[test]
fn test_two_qubit_gadget_distinct_from_single_qubit() {
    let mut circuit = QuantumCircuit::new(3, 0);
    let theta = Parameter::Float(0.1f64.to_bits());
    circuit.cx(0, 1).unwrap();
    circuit.rz(1, theta.clone()).unwrap();
    circuit.cx(0, 1).unwrap();
    circuit.rz(2, theta).unwrap();
    // two rotations are too few for a qDRIFT scan
    assert!(scan_qdrift_circuit(&circuit).is_none());
    let scan = scan_gates(&extract_gates(&circuit));
    let labels: Vec<&str> = scan.terms.iter().map(|t| t.pauli.as_str()).collect();
    assert_eq!(labels, vec!["ZZ", "Z"]);
    assert_eq!(scan.terms[0].qubits, vec![0, 1]);
    assert_eq!(scan.terms[1].qubits, vec![2]);
}

#[test]
fn gates_are_extracted_with_their_numeric_parameter() {
    let mut circuit = QuantumCircuit::new(2, 0);
    circuit.h(0).unwrap();
    circuit.rz(1, Parameter::Float(0.5f64.to_bits())).unwrap();
    circuit.rx(0, Parameter::Symbol("t".to_string())).unwrap();
    let gates = extract_gates(&circuit);
    assert_eq!(gates.len(), 3);
    assert_eq!(gates[0].param, None);
    assert_eq!(gates[1].param, Some(0.5f64.to_bits()));
    assert_eq!(gates[1].qubits, vec![1]);
    assert_eq!(gates[2].param, None);
}

#[test]
fn restoration_applies_each_term_once() {
    let terms = vec![
        TermTally { pauli: "X".to_string(), qubits: vec![2], count: 4 },
        TermTally { pauli: "ZZ".to_string(), qubits: vec![0, 1], count: 6 },
        TermTally { pauli: "Q".to_string(), qubits: vec![0], count: 1 },
    ];
    let angles = vec![0.2f64.to_bits(), 0.3f64.to_bits(), 0.4f64.to_bits()];
    let c = qdrift_restore(3, &terms, &angles).unwrap();
    assert_eq!(c.size(), 4);
    let names: Vec<&str> = c.instructions().iter().map(|i| i.gate.gate_type.name()).collect();
    assert_eq!(names, vec!["rx", "cx", "rz", "cx"]);
    assert_eq!(c.instructions()[2].qubits, vec![1]);

    let wide = vec![TermTally { pauli: "Y".to_string(), qubits: vec![5], count: 1 }];
    let err = qdrift_restore(2, &wide, &vec![0.1f64.to_bits()]).unwrap_err();
    assert_eq!(err.to_string(), "Circuit construction error: Invalid qubit index: 5 (circuit has 2 qubits)");
}
