use myquat::circuit::QuantumCircuit;
use myquat::deoptimization::temporal::{extract_angles, get_suzuki_coeff};
use myquat::deoptimization::trotter_template::{
    first_order_steps, fourth_order_steps, second_order_steps, ScheduledStep, TrotterSegment,
};
use myquat::gates::Parameter;
use std::f64::consts::PI;

fn angles(circuit: &QuantumCircuit) -> Vec<f64> {
    extract_angles(circuit).into_iter().map(f64::from_bits).collect()
}

#[test]
fn test_suzuki_coefficients() {
    assert_eq!(f64::from_bits(get_suzuki_coeff(4).unwrap()), 0.41449077179437573);
    assert_eq!(f64::from_bits(get_suzuki_coeff(6).unwrap()), 0.37307216933481307);
    assert!(get_suzuki_coeff(12).is_none());
}

#[test]
fn test_extract_angles_empty() {
    let circuit = QuantumCircuit::new(2, 0);

    let angles = angles(&circuit);
    assert_eq!(angles.len(), 0);
}

#[test]
fn test_extract_angles_simple() {
    let mut circuit = QuantumCircuit::new(2, 0);

    circuit.rz(0, Parameter::Float((PI / 4.0).to_bits())).unwrap();
    circuit.rx(1, Parameter::Float((PI / 2.0).to_bits())).unwrap();

    let angles = angles(&circuit);
    assert_eq!(angles.len(), 2);
    assert!((angles[0] - PI / 4.0).abs() < 1e-10);
    assert!((angles[1] - PI / 2.0).abs() < 1e-10);
}

#[test]
fn test_extract_angles_non_rotation() {
    let mut circuit = QuantumCircuit::new(2, 0);

    circuit.h(0).unwrap();
    circuit.cx(0, 1).unwrap();
    circuit.rz(0, Parameter::Float((PI / 4.0).to_bits())).unwrap();

    let angles = angles(&circuit);
    assert_eq!(angles.len(), 1); // Only Rz gate
}

#[test]
fn test_extract_angles_absolute_and_numeric_only() {
    let mut circuit = QuantumCircuit::new(2, 0);
    circuit.ry(0, Parameter::Float((-0.75f64).to_bits())).unwrap();
    circuit.rz(1, Parameter::Symbol("t".to_string())).unwrap();
    circuit.p(1, Parameter::Float(0.5f64.to_bits())).unwrap();
    circuit.cp(0, 1, Parameter::Float((-0.25f64).to_bits())).unwrap();
    assert_eq!(angles(&circuit), vec![0.75, 0.5, 0.25]);
}

#[test]
fn test_first_order_template() {
    let steps = first_order_steps(3, 5);
    assert_eq!(steps.len(), 15); // 5 steps * 3 terms
    assert!(steps.iter().enumerate().all(|(k, s)| s.order == k && s.term == k % 3 && !s.half));
}

#[test]
fn test_second_order_template() {
    let steps = second_order_steps(3, 1);
    assert_eq!(steps.len(), 5); // 2 half + 1 full + 2 half
    let halves: Vec<bool> = steps.iter().map(|s| s.half).collect();
    assert_eq!(halves, vec![true, true, false, true, true]);
    let terms: Vec<usize> = steps.iter().map(|s| s.term).collect();
    assert_eq!(terms, vec![0, 1, 2, 1, 0]);
    assert_eq!(second_order_steps(3, 2)[7], ScheduledStep { term: 2, order: 7, segment: TrotterSegment::Whole, half: false });
}

#[test]
fn test_fourth_order_template() {
    let steps = fourth_order_steps(3, 1);
    // 5 second-order segments, each with 5 applications for 3 terms
    assert_eq!(steps.len(), 25);
    let segments: Vec<TrotterSegment> = steps.iter().step_by(5).map(|s| s.segment).collect();
    assert_eq!(
        segments,
        vec![TrotterSegment::Outer, TrotterSegment::Outer, TrotterSegment::Inner, TrotterSegment::Outer, TrotterSegment::Outer]
    );
    assert!(steps.iter().enumerate().all(|(k, s)| s.order == k));
    // The second step counts on from 5 * n.
    assert_eq!(fourth_order_steps(3, 2)[25].order, 15);
}
