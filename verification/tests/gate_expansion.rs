use myquat::circuit::QuantumCircuit;
use myquat::gate_expansion::{ExpansionStrategy, GateExpander};
use myquat::gates::StandardGate;

#[test]
fn test_expander_creation() {
    let expander = GateExpander::new(ExpansionStrategy::CNOTBased);
    assert_eq!(expander.strategy(), ExpansionStrategy::CNOTBased);
}

#[test]
fn test_strategy_change() {
    let mut expander = GateExpander::new(ExpansionStrategy::CNOTBased);
    expander.set_strategy(ExpansionStrategy::CZBased);
    assert_eq!(expander.strategy(), ExpansionStrategy::CZBased);
}

#[test]
fn test_expand_swap() {
    let expander = GateExpander::new(ExpansionStrategy::CNOTBased);
    let mut circuit = QuantumCircuit::new(2, 0);

    expander.expand_swap(&mut circuit, 0, 1).unwrap();
    assert_eq!(circuit.size(), 3);
}

#[test]
fn test_expand_multi_controlled_single() {
    let expander = GateExpander::new(ExpansionStrategy::CNOTBased);
    let mut circuit = QuantumCircuit::new(2, 0);

    expander
        .expand_multi_controlled(&mut circuit, &[0], 1, StandardGate::X)
        .unwrap();
    assert!(circuit.size() > 0);
}

#[test]
fn test_expand_multi_controlled_double() {
    let expander = GateExpander::new(ExpansionStrategy::CNOTBased);
    let mut circuit = QuantumCircuit::new(3, 0);

    expander
        .expand_multi_controlled(&mut circuit, &[0, 1], 2, StandardGate::X)
        .unwrap();
    assert!(circuit.size() > 10);
}

#[test]
fn test_expand_fredkin() {
    let expander = GateExpander::new(ExpansionStrategy::CNOTBased);
    let mut circuit = QuantumCircuit::new(3, 0);

    expander.expand_fredkin(&mut circuit, 0, 1, 2).unwrap();
    assert!(circuit.size() > 10);
}

#[test]
fn expansion_with_no_controls_applies_the_gate() {
    let expander = GateExpander::new(ExpansionStrategy::CNOTBased);
    let mut circuit = QuantumCircuit::new(1, 0);
    expander
        .expand_multi_controlled(&mut circuit, &[], 0, StandardGate::H)
        .unwrap();
    assert_eq!(circuit.size(), 1);
    assert_eq!(circuit.instructions()[0].gate.gate_type, StandardGate::H);
}

#[test]
fn expansion_onto_missing_qubit_is_refused() {
    let expander = GateExpander::new(ExpansionStrategy::CNOTBased);
    let mut circuit = QuantumCircuit::new(1, 0);
    assert!(expander.expand_swap(&mut circuit, 0, 1).is_err());
}
