use myquat::circuit::QuantumCircuit;
use myquat::conditional::{ClassicalCondition, ClassicalState, ConditionalExecutor, ConditionalGate};
use myquat::gates::StandardGate;

#[test]
fn test_classical_condition_creation() {
    let condition = ClassicalCondition::bit_equals(0, 1);
    assert_eq!(
        condition,
        ClassicalCondition::BitEquals {
            bit_index: 0,
            value: 1
        }
    );
}

#[test]
fn test_classical_condition_evaluation() {
    let mut state = ClassicalState::new(2);
    state.set_bit(0, 1).unwrap();
    state.set_register("reg1".to_string(), 5);

    let condition1 = ClassicalCondition::bit_equals(0, 1);
    assert!(condition1.evaluate(&state));

    let condition2 = ClassicalCondition::bit_equals(0, 0);
    assert!(!condition2.evaluate(&state));

    let condition3 = ClassicalCondition::register_equals("reg1".to_string(), 5);
    assert!(condition3.evaluate(&state));
}

#[test]
fn test_logical_conditions() {
    let mut state = ClassicalState::new(2);
    state.set_bit(0, 1).unwrap();
    state.set_bit(1, 0).unwrap();

    let cond1 = ClassicalCondition::bit_equals(0, 1);
    let cond2 = ClassicalCondition::bit_equals(1, 1);

    let and_condition = cond1.clone().and(cond2.clone());
    assert!(!and_condition.evaluate(&state));

    let or_condition = cond1.or(cond2);
    assert!(or_condition.evaluate(&state));
}

#[test]
fn test_conditional_gate_creation() {
    let condition = ClassicalCondition::bit_equals(0, 1);
    let gate = ConditionalGate::new(StandardGate::X, vec![1], vec![], condition);

    assert_eq!(gate.gate_name(), "x");
    assert_eq!(gate.num_qubits(), 1);
}

#[test]
fn test_conditional_gate_execution() {
    let mut state = ClassicalState::new(1);
    state.set_bit(0, 1).unwrap();

    let condition = ClassicalCondition::bit_equals(0, 1);
    let gate = ConditionalGate::new(StandardGate::X, vec![0], vec![], condition);

    assert!(gate.should_apply(&state));

    state.set_bit(0, 0).unwrap();
    assert!(!gate.should_apply(&state));
}

#[test]
fn test_conditional_circuit_extension() {
    let mut circuit = QuantumCircuit::new(2, 2);
    let condition = ClassicalCondition::bit_equals(0, 1);

    circuit.c_if_x(0, condition.clone()).unwrap();
    circuit.c_if_h(1, condition.clone()).unwrap();
    circuit.c_if_cx(0, 1, condition).unwrap();
}

#[test]
fn test_conditional_executor() {
    let mut executor = ConditionalExecutor::new(2);

    let condition = ClassicalCondition::bit_equals(0, 1);
    let gate = ConditionalGate::new(StandardGate::X, vec![0], vec![], condition);

    executor.add_conditional_gate(gate);

    assert_eq!(executor.get_executable_gates().len(), 0);

    let mut state = ClassicalState::new(2);
    state.set_bit(0, 1).unwrap();
    executor.update_classical_state(state);

    assert_eq!(executor.get_executable_gates().len(), 1);
}

#[test]
fn set_bit_then_get_bit_reads_the_written_value() {
    let mut state = ClassicalState::new(3);
    state.set_bit(2, 1).unwrap();
    assert_eq!(state.get_bit(2), Some(1));
    assert_eq!(state.get_bit(0), Some(0));
    assert_eq!(state.get_bit(3), None);
}

#[test]
fn set_bit_out_of_range_is_refused() {
    let mut state = ClassicalState::new(1);
    assert!(state.set_bit(1, 1).is_err());
}

#[test]
fn register_write_then_read_gives_the_value() {
    let mut state = ClassicalState::new(0);
    state.set_register("a".to_string(), 7);
    state.set_register("a".to_string(), 9);
    assert_eq!(state.get_register("a"), Some(9));
    assert_eq!(state.get_register("b"), None);
    assert_eq!(state.registers().len(), 1);
    state.set_register("b".to_string(), 1);
    assert_eq!(state.registers().len(), 2);
}

#[test]
fn register_comparisons_use_missing_registers_as_zero() {
    let state = ClassicalState::new(1);
    assert!(ClassicalCondition::register_less("r".to_string(), 1).evaluate(&state));
    assert!(!ClassicalCondition::register_greater("r".to_string(), 0).evaluate(&state));
    assert!(ClassicalCondition::register_equals("r".to_string(), 0).evaluate(&state));
}

#[test]
fn negation_flips_the_condition() {
    let mut state = ClassicalState::new(1);
    state.set_bit(0, 1).unwrap();
    let c = ClassicalCondition::bit_equals(0, 1);
    assert!(c.evaluate(&state));
    assert!(!c.clone().not().evaluate(&state));
    assert!(c.not().not().evaluate(&state));
}

#[test]
fn executor_applies_only_satisfied_gates() {
    let mut executor = ConditionalExecutor::new(1);
    executor.add_conditional_gate(ConditionalGate::new(
        StandardGate::X,
        vec![0],
        vec![],
        ClassicalCondition::bit_equals(0, 1),
    ));
    executor.add_conditional_gate(ConditionalGate::new(
        StandardGate::H,
        vec![1],
        vec![],
        ClassicalCondition::bit_equals(0, 0),
    ));
    let mut circuit = QuantumCircuit::new(2, 1);
    executor.execute_on_circuit(&mut circuit).unwrap();
    assert_eq!(circuit.size(), 1);
    assert_eq!(circuit.instructions()[0].gate.gate_type, StandardGate::H);
}
