use myquat::custom_gate_matrix::{eval_param, gate_angles};
use myquat::gates::{Parameter, StandardGate};
use std::f64::consts::PI;

#[test]
fn test_compute_standard_gate() {
    let symbols: Vec<(String, u64)> = Vec::new();
    // the identity is built from no angle
    assert_eq!(gate_angles(StandardGate::I, &vec![], &symbols).unwrap(), Vec::<u64>::new());
    // a rotation from its one angle
    let rx = gate_angles(StandardGate::Rx, &vec![Parameter::Float((PI / 2.0).to_bits())], &symbols).unwrap();
    assert_eq!(rx, vec![(PI / 2.0).to_bits()]);
}

#[test]
fn symbols_take_their_values_from_the_table() {
    let symbols = vec![("theta".to_string(), 0.25f64.to_bits()), ("phi".to_string(), 1.5f64.to_bits())];
    let params = vec![
        Parameter::Symbol("phi".to_string()),
        Parameter::Float(2.0f64.to_bits()),
        Parameter::Symbol("theta".to_string()),
    ];
    assert_eq!(
        gate_angles(StandardGate::U3, &params, &symbols).unwrap(),
        vec![1.5f64.to_bits(), 2.0f64.to_bits(), 0.25f64.to_bits()]
    );
    // only the first parameter of a one-angle gate is read
    assert_eq!(gate_angles(StandardGate::CP, &params, &symbols).unwrap(), vec![1.5f64.to_bits()]);
    assert_eq!(eval_param(&Parameter::Float(7), &symbols).unwrap(), 7);
}

#[test]
fn parameters_without_a_value_are_reported() {
    let symbols = vec![("a".to_string(), 1)];
    let unknown = gate_angles(StandardGate::U2, &vec![Parameter::Symbol("a".to_string()), Parameter::Symbol("b".to_string())], &symbols)
        .unwrap_err();
    assert_eq!(unknown.to_string(), "Invalid gate parameter: Symbol 'b' not found in symbol table");
    let expr = gate_angles(StandardGate::Rz, &vec![Parameter::Expression("2*t".to_string())], &symbols).unwrap_err();
    assert_eq!(expr.to_string(), "Circuit construction error: Expression evaluation not yet implemented");
    let measure = gate_angles(StandardGate::Measure, &vec![], &symbols).unwrap_err();
    assert_eq!(measure.to_string(), "Circuit construction error: Matrix computation not implemented for gate: Measure");
}
