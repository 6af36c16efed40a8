use myquat::gates::Parameter;
use myquat::deoptimization::vqe_templates::detect_vqe_structure;
use myquat::deoptimization::vqe_templates::{detect_layers, GateInfo};
use myquat::deoptimization::vqe_templates::reconstruct_vqe;
use myquat::MyQuatError;
use myquat::deoptimization::vqe_templates::{
    classify_vqe_type, collect_rotation_types, count_layer_types, detect_entanglement_pattern,
    infer_entanglement_pattern, AnsatzLayer, EntanglementPattern, HEATemplate, RotationType, VQEType,
};
use myquat::gates::StandardGate;

#[test]
fn test_hea_real_amplitudes() {
    let tpl = HEATemplate::real_amplitudes(4, 3);
    assert_eq!(tpl.num_qubits, 4);
    assert_eq!(tpl.num_layers, 3);
    assert_eq!(tpl.rotation_gates, vec![RotationType::RY]);
    assert_eq!(tpl.entanglement, EntanglementPattern::Linear);
    assert_eq!(tpl.expected_gate_count(), 21);
}

#[test]
fn test_hea_efficient_su2() {
    let tpl = HEATemplate::efficient_su2(4, 2);
    assert_eq!(tpl.rotation_gates, vec![RotationType::RY, RotationType::RZ]);
    assert_eq!(tpl.expected_gate_count(), 22);
}

#[test]
fn test_infer_linear_pattern() {
    let pairs = vec![(0, 1), (1, 2), (2, 3)];
    assert_eq!(
        infer_entanglement_pattern(&pairs, 4),
        EntanglementPattern::Linear
    );
}

#[test]
fn test_infer_circular_pattern() {
    let pairs = vec![(0, 1), (1, 2), (2, 3), (3, 0)];
    assert_eq!(
        infer_entanglement_pattern(&pairs, 4),
        EntanglementPattern::Circular
    );
}

#[test]
fn infer_full_and_custom_patterns() {
    let full = vec![(0, 1), (0, 2), (0, 3), (1, 2), (1, 3), (2, 3)];
    assert_eq!(infer_entanglement_pattern(&full, 4), EntanglementPattern::Full);
    let custom = vec![(0, 2)];
    assert_eq!(
        infer_entanglement_pattern(&custom, 4),
        EntanglementPattern::Custom(vec![(0, 2)])
    );
    assert_eq!(infer_entanglement_pattern(&vec![], 4), EntanglementPattern::Linear);
}

#[test]
fn full_template_gate_count() {
    let tpl = HEATemplate {
        num_qubits: 4,
        num_layers: 2,
        rotation_gates: vec![RotationType::RX],
        entanglement: EntanglementPattern::Full,
        entangling_gate: StandardGate::CZ,
    };
    // 2 layers * (4 RX + 6 CZ)
    assert_eq!(tpl.expected_gate_count(), 20);
}

#[test]
fn layer_summaries() {
    let layers = vec![
        AnsatzLayer::Rotation { rotation_type: RotationType::RY, params: vec![0, 0] },
        AnsatzLayer::Entanglement { pattern: EntanglementPattern::Circular, gate: StandardGate::CX },
        AnsatzLayer::Rotation { rotation_type: RotationType::RZ, params: vec![0, 0] },
        AnsatzLayer::Rotation { rotation_type: RotationType::RY, params: vec![0, 0] },
    ];
    assert_eq!(count_layer_types(&layers), (3, 1));
    let types = collect_rotation_types(&layers);
    assert_eq!(types, vec![RotationType::RY, RotationType::RZ]);
    assert_eq!(detect_entanglement_pattern(&layers, 2), EntanglementPattern::Circular);
    assert_eq!(
        classify_vqe_type(&types, &EntanglementPattern::Circular),
        VQEType::EfficientSU2
    );
    assert_eq!(
        classify_vqe_type(&vec![RotationType::RY], &EntanglementPattern::Linear),
        VQEType::RealAmplitudes
    );
    assert_eq!(
        classify_vqe_type(&vec![RotationType::RX, RotationType::RZ], &EntanglementPattern::Linear),
        VQEType::HardwareEfficient
    );
    assert_eq!(
        classify_vqe_type(&vec![RotationType::RX], &EntanglementPattern::Linear),
        VQEType::Unknown
    );
}

#[test]
fn rotation_type_matches_its_gate() {
    assert!(RotationType::RY.matches_gate(StandardGate::Ry));
    assert!(!RotationType::RY.matches_gate(StandardGate::Rz));
}

#[test]
fn test_uccsd_template_creation() {
    let tpl = myquat::deoptimization::vqe_templates::UCCSDTemplate::new(4, 2);
    assert_eq!(tpl.num_qubits, 4);
    assert_eq!(tpl.num_electrons, 2);
    assert_eq!(tpl.single_excitations.len(), 4);
    assert_eq!(tpl.double_excitations.len(), 1);
}

#[test]
fn test_uccsd_template_larger() {
    let tpl = myquat::deoptimization::vqe_templates::UCCSDTemplate::new(6, 2);
    assert_eq!(tpl.single_excitations.len(), 8);
    assert_eq!(tpl.double_excitations.len(), 6);
    assert_eq!(tpl.double_excitations[0].occupied, (0, 1));
    assert_eq!(tpl.double_excitations[0].virtual_idx, (2, 3));
    assert_eq!(tpl.single_excitations[1].virtual_idx, 3);
}

fn real_amplitudes_circuit(num_qubits: usize, num_layers: usize) -> myquat::circuit::QuantumCircuit {
    let mut c = myquat::circuit::QuantumCircuit::new(num_qubits, 0);
    for layer in 0..num_layers {
        for q in 0..num_qubits {
            let angle = 0.1 * (layer * num_qubits + q) as f64;
            c.ry(q, Parameter::Float(angle.to_bits())).unwrap();
        }
        for q in 0..num_qubits.saturating_sub(1) {
            c.cx(q, q + 1).unwrap();
        }
    }
    for q in 0..num_qubits {
        c.ry(q, Parameter::Float(0.5f64.to_bits())).unwrap();
    }
    c
}

#[test]
fn structure_of_real_amplitudes_circuit() {
    let circuit = real_amplitudes_circuit(4, 3);
    let s = detect_vqe_structure(&circuit).unwrap();
    assert_eq!(s.num_qubits, 4);
    assert_eq!(s.vqe_type, VQEType::RealAmplitudes);
    assert_eq!(s.rotation_types, vec![RotationType::RY]);
    assert_eq!(s.entanglement, EntanglementPattern::Linear);
    assert_eq!(s.layers.len(), 7);
    assert_eq!(s.num_layers, 4);
}

#[test]
fn structure_needs_rotations_and_entanglers() {
    let empty = myquat::circuit::QuantumCircuit::new(4, 0);
    assert!(detect_vqe_structure(&empty).is_none());
    let mut only_h = myquat::circuit::QuantumCircuit::new(4, 0);
    for i in 0..4 {
        only_h.h(i).unwrap();
    }
    only_h.cx(0, 1).unwrap();
    assert!(detect_vqe_structure(&only_h).is_none());
}

#[test]
fn interleaved_rotations_are_grouped_by_kind() {
    let g = |t: StandardGate, qs: Vec<usize>, p: Option<u64>| GateInfo { index: 0, gate_type: t, qubits: qs, param: p };
    let gates = vec![
        g(StandardGate::Ry, vec![0], Some(1)),
        g(StandardGate::Rz, vec![0], None),
        g(StandardGate::Ry, vec![1], Some(2)),
        g(StandardGate::CX, vec![0, 1], None),
        g(StandardGate::H, vec![0], None),
    ];
    let layers = detect_layers(&gates, 2);
    assert_eq!(
        layers,
        vec![
            AnsatzLayer::Rotation { rotation_type: RotationType::RY, params: vec![1, 2] },
            AnsatzLayer::Rotation { rotation_type: RotationType::RZ, params: vec![0] },
            AnsatzLayer::Entanglement { pattern: EntanglementPattern::Linear, gate: StandardGate::CX },
        ]
    );
}

#[test]
fn reconstruction_rebuilds_layers() {
    let layers = vec![
        AnsatzLayer::Rotation { rotation_type: RotationType::RY, params: vec![0, 0, 0, 0] },
        AnsatzLayer::Entanglement { pattern: EntanglementPattern::Circular, gate: StandardGate::CZ },
    ];
    let c = reconstruct_vqe(3, &layers).unwrap();
    // three rotations (the fourth parameter has no qubit), three CZ on the ring
    assert_eq!(c.size(), 6);
    assert_eq!(c.instructions()[5].qubits, vec![2, 0]);
    assert_eq!(c.instructions()[5].gate.gate_type, StandardGate::CZ);
}

#[test]
fn reconstruction_reports_rejected_pairs() {
    let layers = vec![AnsatzLayer::Entanglement {
        pattern: EntanglementPattern::Custom(vec![(0, 5)]),
        gate: StandardGate::CX,
    }];
    match reconstruct_vqe(2, &layers) {
        Err(MyQuatError::CircuitError { message }) => {
            assert_eq!(message, "Invalid qubit index: 5 (circuit has 2 qubits)")
        }
        _ => panic!("expected a circuit error"),
    }
}
