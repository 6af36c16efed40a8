use myquat::circuit::QuantumCircuit;
use myquat::device_topology::{CircuitRouter, DeviceTopology, TopologyViolationType};
use myquat::gates::StandardGate;

#[test]
fn test_linear_topology() {
    let topology = DeviceTopology::linear(5);
    assert_eq!(topology.num_qubits(), 5);
    assert!(topology.are_connected(0, 1));
    assert!(topology.are_connected(1, 2));
    assert!(!topology.are_connected(0, 2));
    assert!(!topology.are_connected(0, 4));
}

#[test]
fn test_grid_topology() {
    let topology = DeviceTopology::grid(2, 3);
    assert_eq!(topology.num_qubits(), 6);

    assert!(topology.are_connected(0, 1));
    assert!(topology.are_connected(1, 2));
    assert!(topology.are_connected(3, 4));
    assert!(topology.are_connected(4, 5));

    assert!(topology.are_connected(0, 3));
    assert!(topology.are_connected(1, 4));
    assert!(topology.are_connected(2, 5));

    assert!(!topology.are_connected(0, 2));
    assert!(!topology.are_connected(0, 5));
}

#[test]
fn test_shortest_path() {
    let topology = DeviceTopology::linear(5);

    let path = topology.shortest_path(0, 4).unwrap();
    assert_eq!(path, vec![0, 1, 2, 3, 4]);

    let path = topology.shortest_path(1, 3).unwrap();
    assert_eq!(path, vec![1, 2, 3]);

    let path = topology.shortest_path(2, 2).unwrap();
    assert_eq!(path, vec![2]);
}

#[test]
fn test_distance_calculation() {
    let topology = DeviceTopology::linear(5);

    assert_eq!(topology.distance(0, 4), Some(4));
    assert_eq!(topology.distance(1, 3), Some(2));
    assert_eq!(topology.distance(2, 2), Some(0));
}

#[test]
fn test_circuit_validation() {
    let topology = DeviceTopology::linear(3);
    let mut circuit = QuantumCircuit::new(3, 0);

    circuit.h(0).unwrap();
    circuit.cx(0, 1).unwrap();
    circuit.cx(1, 2).unwrap();

    let result = topology.validate_circuit(&circuit);
    assert!(result.is_valid);
    assert!(result.violations.is_empty());

    let mut invalid_circuit = QuantumCircuit::new(3, 0);
    invalid_circuit.cx(0, 2).unwrap();

    let result = topology.validate_circuit(&invalid_circuit);
    assert!(!result.is_valid);
    assert_eq!(result.violations.len(), 1);
    assert_eq!(
        result.violations[0].violation_type,
        TopologyViolationType::ConnectivityViolation
    );
}

#[test]
fn test_fully_connected_topology() {
    let topology = DeviceTopology::fully_connected(4);

    for i in 0..4 {
        for j in 0..4 {
            if i != j {
                assert!(topology.are_connected(i, j));
            }
        }
    }
}

#[test]
fn test_circuit_router() {
    let topology = DeviceTopology::linear(3);
    let router = CircuitRouter::new(topology);

    let mut circuit = QuantumCircuit::new(3, 0);
    circuit.h(0).unwrap();
    circuit.cx(0, 2).unwrap();

    let routed = router.route_circuit(&circuit).unwrap();
    assert!(routed.size() > circuit.size());
}

#[test]
fn routed_circuit_swaps_along_the_path_then_applies_the_gate() {
    let router = CircuitRouter::new(DeviceTopology::linear(3));
    let mut circuit = QuantumCircuit::new(3, 0);
    circuit.h(0).unwrap();
    circuit.cx(0, 2).unwrap();
    let routed = router.route_circuit(&circuit).unwrap();
    let ops: Vec<(StandardGate, Vec<usize>)> = routed
        .instructions()
        .iter()
        .map(|i| (i.gate.gate_type, i.qubits.clone()))
        .collect();
    assert_eq!(
        ops,
        vec![
            (StandardGate::H, vec![0]),
            (StandardGate::Swap, vec![0, 1]),
            (StandardGate::CX, vec![1, 2]),
        ]
    );
}

#[test]
fn validation_reports_missing_qubits_with_messages() {
    let topology = DeviceTopology::linear(2);
    let mut circuit = QuantumCircuit::new(4, 0);
    circuit.x(3).unwrap();
    circuit.cx(0, 2).unwrap();
    let result = topology.validate_circuit(&circuit);
    assert_eq!(result.violations.len(), 2);
    assert_eq!(result.violations[0].violation_type, TopologyViolationType::InvalidQubit);
    assert_eq!(result.violations[0].message, "Qubit 3 does not exist in topology");
    assert_eq!(result.violations[0].gate, "X");
    assert_eq!(
        result.violations[1].message,
        "Qubits 0 and 2 are not connected in topology"
    );
    assert_eq!(result.violations[1].qubits, vec![0, 2]);
}

#[test]
fn unreachable_qubits_have_no_path_or_distance() {
    let mut topology = DeviceTopology::new("pair".to_string(), 4);
    topology.add_edge(0, 1);
    assert!(topology.are_connected(1, 0));
    assert_eq!(topology.shortest_path(0, 3), None);
    assert_eq!(topology.distance(0, 1), Some(1));
    topology.remove_edge(1, 0);
    assert!(!topology.are_connected(0, 1));
    assert_eq!(topology.distance(0, 1), None);
}

#[test]
fn edges_and_neighbors_are_listed_in_order() {
    let topology = DeviceTopology::grid(2, 2);
    assert_eq!(topology.edges(), vec![(0, 1), (0, 2), (1, 3), (2, 3)]);
    assert_eq!(topology.neighbors(0), vec![1, 2]);
    assert_eq!(topology.edge_fidelities().len(), 8);
    assert_eq!(topology.qubit_fidelities().len(), 4);
    assert_eq!(f64::from_bits(topology.qubit_fidelities()[0]), 0.999);
}

#[test]
fn heavy_hex_connects_qubits_two_apart() {
    let topology = DeviceTopology::heavy_hex(1);
    assert_eq!(topology.num_qubits(), 5);
    assert!(topology.are_connected(0, 2));
    assert!(!topology.are_connected(0, 3));
    assert_eq!(topology.distance(0, 4), Some(2));
}

#[test]
fn add_edge_outside_the_device_is_ignored() {
    let mut topology = DeviceTopology::linear(2);
    topology.add_edge(0, 5);
    assert!(!topology.are_connected(0, 5));
    assert_eq!(topology.edges(), vec![(0, 1)]);
}

#[test]
fn routed_circuit_on_a_connected_device_passes_validation() {
    let topology = DeviceTopology::grid(2, 3);
    let router = CircuitRouter::new(DeviceTopology::grid(2, 3));
    let mut circuit = QuantumCircuit::new(6, 0);
    circuit.cx(0, 5).unwrap();
    circuit.cz(2, 3).unwrap();
    circuit.h(4).unwrap();
    circuit.cx(5, 1).unwrap();
    assert!(!topology.validate_circuit(&circuit).is_valid);
    let routed = router.route_circuit(&circuit).unwrap();
    let report = topology.validate_circuit(&routed);
    assert!(report.is_valid);
    assert!(report.violations.is_empty());
    for ins in routed.instructions() {
        if ins.qubits.len() == 2 {
            assert!(topology.are_connected(ins.qubits[0], ins.qubits[1]));
        }
    }
}
