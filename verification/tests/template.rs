use myquat::circuit::QuantumCircuit;
use myquat::deoptimization::template::{circuit_to_graph, gate_matches_step, gates_depend, periodic_matches};
use myquat::gates::StandardGate;

#[test]
fn test_circuit_to_graph_empty() {
    let circuit = QuantumCircuit::new(2, 0);
    let graph = circuit_to_graph(true, &circuit);
    assert_eq!(graph.node_count(), 0);
    assert_eq!(graph.edge_count(), 0);
}

#[test]
fn test_circuit_to_graph_simple() {
    let mut circuit = QuantumCircuit::new(2, 0);
    circuit.h(0).unwrap();
    circuit.cx(0, 1).unwrap();
    let graph = circuit_to_graph(true, &circuit);
    assert_eq!(graph.node_count(), 2);
    assert!(graph.edge_count() > 0);
}

#[test]
fn test_gates_depend_no_shared_qubits() {
    let mut circuit = QuantumCircuit::new(2, 0);
    circuit.h(0).unwrap();
    circuit.h(1).unwrap();
    let instructions = circuit.instructions();
    assert!(!gates_depend(true, &instructions[0], &instructions[1]));
}

#[test]
fn test_gates_depend_shared_qubits() {
    let mut circuit = QuantumCircuit::new(2, 0);
    circuit.h(0).unwrap();
    circuit.x(0).unwrap();
    let instructions = circuit.instructions();
    assert!(gates_depend(true, &instructions[0], &instructions[1]));
}

#[test]
fn test_gate_matches_step_zz() {
    assert!(gate_matches_step(StandardGate::H, "ZZ"));
    assert!(gate_matches_step(StandardGate::CX, "ZZ"));
    assert!(gate_matches_step(StandardGate::Rz, "ZZ"));
    assert!(!gate_matches_step(StandardGate::Rx, "ZZ"));
}

#[test]
fn test_gate_matches_step_xx() {
    assert!(gate_matches_step(StandardGate::Ry, "XX"));
    assert!(gate_matches_step(StandardGate::CX, "XX"));
    assert!(gate_matches_step(StandardGate::Rz, "XX"));
    assert!(!gate_matches_step(StandardGate::H, "XX"));
}

#[test]
fn dependency_edges_follow_shared_qubits() {
    let mut circuit = QuantumCircuit::new(3, 0);
    circuit.h(0).unwrap();
    circuit.h(1).unwrap();
    circuit.cx(0, 1).unwrap();
    circuit.x(2).unwrap();
    let graph = circuit_to_graph(true, &circuit);
    assert_eq!(graph.node_count(), 4);
    // H(0) -> CX and H(1) -> CX only
    assert_eq!(graph.edge_count(), 2);
    assert_eq!(graph.node_weight(petgraph::graph::NodeIndex::new(2)).unwrap().index, 2);
}

#[test]
fn periodic_matching_counts_fitting_gates() {
    let mut circuit = QuantumCircuit::new(2, 0);
    circuit.rx(0, myquat::gates::Parameter::Float(0)).unwrap();
    circuit.ry(1, myquat::gates::Parameter::Float(0)).unwrap();
    circuit.rx(0, myquat::gates::Parameter::Float(0)).unwrap();
    circuit.h(1).unwrap();
    let terms = vec!["X".to_string(), "Y".to_string()];
    assert_eq!(periodic_matches(&circuit, &terms), Some(3));
    let odd = vec!["X".to_string(), "Y".to_string(), "Z".to_string()];
    assert_eq!(periodic_matches(&circuit, &odd), None);
    assert_eq!(periodic_matches(&circuit, &vec![]), None);
}
