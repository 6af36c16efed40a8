use myquat::circuit::{Instruction, QuantumCircuit};
use myquat::error_mitigation::{fold_circuit, ExtrapolationMethod, MitigationTechnique, PauliOperator};
use myquat::gates::{Parameter, StandardGate};

fn kinds(c: &QuantumCircuit) -> Vec<StandardGate> {
    c.instructions().iter().map(|i| i.gate.gate_type).collect()
}

#[test]
fn test_fold_repeats_each_gate_three_times() {
    let mut c = QuantumCircuit::new(2, 0);
    c.h(0).unwrap();
    c.cx(0, 1).unwrap();
    c.s(1).unwrap();
    c.t(0).unwrap();
    c.rx(0, Parameter::Float(0.5f64.to_bits())).unwrap();

    let folded = fold_circuit(&c, 1).unwrap();
    assert_eq!(folded.num_qubits(), 2);
    assert_eq!(folded.size(), 15);
    assert_eq!(
        kinds(&folded),
        vec![
            StandardGate::H, StandardGate::H, StandardGate::H,
            StandardGate::CX, StandardGate::CX, StandardGate::CX,
            StandardGate::S, StandardGate::S, StandardGate::Sdg,
            StandardGate::T, StandardGate::T, StandardGate::Tdg,
            StandardGate::Rx, StandardGate::Rx, StandardGate::Rx,
        ]
    );
    let angles: Vec<f64> = folded.instructions()[12..]
        .iter()
        .map(|i| match i.gate.parameters[0] {
            Parameter::Float(b) => f64::from_bits(b),
            _ => panic!("numeric angle expected"),
        })
        .collect();
    assert_eq!(angles, vec![0.5, 0.5, -0.5]);
    assert_eq!(folded.instructions()[4].qubits, vec![0, 1]);
}

#[test]
fn test_fold_zero_rounds_and_more_rounds() {
    let mut c = QuantumCircuit::new(1, 0);
    c.x(0).unwrap();
    c.sdg(0).unwrap();

    let same = fold_circuit(&c, 0).unwrap();
    // S-dagger is not among the gates folding supports: an identity takes its place.
    assert_eq!(kinds(&same), vec![StandardGate::X, StandardGate::I]);

    let three = fold_circuit(&c, 2).unwrap();
    assert_eq!(three.size(), 10);
    assert_eq!(kinds(&three)[..5], [StandardGate::X; 5]);
    assert_eq!(kinds(&three)[5..], [StandardGate::I; 5]);
}

#[test]
fn test_fold_symbolic_rotation_is_undone_by_zero() {
    let mut c = QuantumCircuit::new(1, 0);
    c.rz(0, Parameter::Symbol("theta".to_string())).unwrap();
    let folded = fold_circuit(&c, 1).unwrap();
    assert_eq!(folded.size(), 3);
    assert!(matches!(&folded.instructions()[1].gate.parameters[0], Parameter::Symbol(s) if s == "theta"));
    assert!(matches!(folded.instructions()[2].gate.parameters[0], Parameter::Float(0)));
}

#[test]
fn test_fold_rotation_without_angle_adds_nothing() {
    let mut c = QuantumCircuit::new(1, 0);
    c.append(Instruction::new(StandardGate::Ry, vec![0], vec![])).unwrap();
    c.h(0).unwrap();
    let folded = fold_circuit(&c, 3).unwrap();
    assert_eq!(kinds(&folded), vec![StandardGate::H; 7]);
}

#[test]
fn test_fold_measurement_becomes_identity() {
    let mut c = QuantumCircuit::new(1, 1);
    c.measure(0, 0).unwrap();
    let folded = fold_circuit(&c, 1).unwrap();
    assert_eq!(kinds(&folded), vec![StandardGate::I; 3]);
    assert!(folded.instructions().iter().all(|i| i.clbits.is_empty()));
}

#[test]
fn test_fold_keeps_first_two_qubits_of_cnot() {
    let mut c = QuantumCircuit::new(3, 0);
    c.append(Instruction::new(StandardGate::CX, vec![2, 0, 1], vec![])).unwrap();
    let folded = fold_circuit(&c, 1).unwrap();
    assert_eq!(folded.size(), 3);
    assert!(folded.instructions().iter().all(|i| i.qubits == vec![2, 0]));
}

#[test]
fn test_mitigation_vocabulary() {
    let methods = [
        ExtrapolationMethod::Linear,
        ExtrapolationMethod::Exponential,
        ExtrapolationMethod::Polynomial(2),
        ExtrapolationMethod::Richardson,
    ];
    assert_eq!(methods[2], ExtrapolationMethod::Polynomial(2));
    assert_ne!(methods[2], ExtrapolationMethod::Polynomial(3));
    let paulis = vec![PauliOperator::Z, PauliOperator::Z];
    assert_eq!(paulis, vec![PauliOperator::Z; 2]);
    assert_ne!(MitigationTechnique::VirtualZGates, MitigationTechnique::DynamicalDecoupling);
}
