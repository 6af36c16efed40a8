use myquat::easy_api::{most_probable_outcome, EasyAlgorithms, EasyAnalysis, EasyCircuit};
use myquat::gates::StandardGate;

#[test]
fn test_easy_circuit_creation() {
    let mut circuit = EasyCircuit::new(2);
    circuit
        .h(0)
        .unwrap()
        .cnot(0, 1)
        .unwrap()
        .measure_all()
        .unwrap();

    assert_eq!(circuit.num_qubits(), 2);
    assert!(circuit.num_gates() > 0);
}

#[test]
fn test_bell_state() {
    let circuit = EasyAlgorithms::bell_state().unwrap();
    assert_eq!(circuit.num_qubits(), 2);
}

#[test]
fn test_random_bits() {
    let circuit = EasyAlgorithms::random_bits(3).unwrap();
    assert_eq!(circuit.num_qubits(), 3);
}

#[test]
fn bell_state_is_h_cx_and_two_measurements() {
    let circuit = EasyAlgorithms::bell_state().unwrap();
    let kinds: Vec<StandardGate> = circuit
        .circuit()
        .instructions()
        .iter()
        .map(|i| i.gate.gate_type)
        .collect();
    assert_eq!(
        kinds,
        vec![StandardGate::H, StandardGate::CX, StandardGate::Measure, StandardGate::Measure]
    );
}

#[test]
fn ghz_state_of_no_qubits_is_refused() {
    assert!(EasyAlgorithms::ghz_state(0).is_err());
    let ghz = EasyAlgorithms::ghz_state(3).unwrap();
    assert_eq!(ghz.num_qubits(), 3);
    assert_eq!(ghz.num_gates(), 1 + 2 + 3);
}

#[test]
fn easy_gate_on_missing_qubit_is_refused_and_changes_nothing() {
    let mut circuit = EasyCircuit::new(1);
    assert!(circuit.x(1).is_err());
    assert_eq!(circuit.num_gates(), 0);
}

#[test]
fn qft_of_three_qubits_has_expected_size() {
    let c = EasyAlgorithms::qft(3).unwrap();
    // three Hadamards, three controlled phases, one reversal swap, three measurements
    assert_eq!(c.num_gates(), 3 + 3 + 1 + 3);
}

#[test]
fn test_optimization_suggestions() {
    let small = EasyCircuit::new(2);
    assert_eq!(EasyAnalysis::suggest_optimizations(&small), vec!["• 当前配置会自动选择最优执行策略".to_string()]);

    let mut wide = EasyCircuit::new(12);
    wide.h(0).unwrap();
    assert_eq!(
        EasyAnalysis::suggest_optimizations(&wide),
        vec![
            "• 大规模电路建议启用GPU加速".to_string(),
            "• 建议启用并行计算优化".to_string(),
            "• 当前配置会自动选择最优执行策略".to_string(),
        ]
    );

    let mut deep = EasyCircuit::new(1);
    for _ in 0..11 {
        deep.x(0).unwrap();
    }
    assert_eq!(EasyAnalysis::suggest_optimizations(&deep)[0], "• 考虑使用电路优化来减少门数量");
}

#[test]
fn test_most_probable_outcome() {
    let results = vec![("00".to_string(), 480), ("11".to_string(), 520), ("01".to_string(), 520), ("10".to_string(), 3)];
    assert_eq!(most_probable_outcome(&results).unwrap(), "01");
    let single = vec![("1".to_string(), 0)];
    assert_eq!(most_probable_outcome(&single).unwrap(), "1");
    let err = most_probable_outcome(&vec![]).unwrap_err();
    assert_eq!(err.to_string(), "Circuit construction error: No measurement results");
}

#[test]
fn sqrt_x_is_a_quarter_turn_about_x() {
    let mut circuit = EasyCircuit::new(1);
    circuit.sqrt_x(0).unwrap();
    let inst = &circuit.circuit().instructions()[0];
    assert_eq!(inst.gate.gate_type, StandardGate::Rx);
    match &inst.gate.parameters[0] {
        myquat::gates::Parameter::Float(b) => assert_eq!(f64::from_bits(*b), std::f64::consts::FRAC_PI_2),
        _ => panic!("Expected float parameter"),
    }
}
