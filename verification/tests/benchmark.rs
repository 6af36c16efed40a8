use myquat::circuit::QuantumCircuit;
use myquat::deoptimization::benchmark::{
    generate_hamiltonian_simulation, generate_qaoa, generate_vqe_ansatz, generate_vqe_uccsd, qdrift_circuit,
    qdrift_zz_circuit, real_amplitudes_circuit, BenchmarkCircuit, OptimizationLevel,
};
use myquat::gates::{Parameter, StandardGate};

fn real_amplitudes(num_qubits: usize, depth: usize) -> QuantumCircuit {
    let mut angles = Vec::new();
    for layer in 0..depth {
        for i in 0..num_qubits {
            angles.push((0.1 * (layer * num_qubits + i) as f64 + 0.2).to_bits());
        }
    }
    real_amplitudes_circuit(num_qubits, depth, &angles)
}

fn qdrift(num_qubits: usize, num_samples: usize) -> QuantumCircuit {
    qdrift_circuit(num_qubits, num_samples, (2.0 * 1.0 / num_samples as f64).to_bits())
}

fn qdrift_with_zz(num_qubits: usize, num_samples: usize) -> QuantumCircuit {
    qdrift_zz_circuit(num_qubits, num_samples, (3.0 * 1.0 / num_samples as f64).to_bits())
}

fn kinds(c: &QuantumCircuit) -> Vec<StandardGate> {
    c.instructions().iter().map(|i| i.gate.gate_type).collect()
}

fn angle(c: &QuantumCircuit, k: usize) -> f64 {
    match c.instructions()[k].gate.parameters[0] {
        Parameter::Float(b) => f64::from_bits(b),
        _ => panic!("numeric angle expected"),
    }
}

#[test]
fn test_generate_hamiltonian_simulation() {
    let circuit = generate_hamiltonian_simulation(4, 2);
    assert_eq!(circuit.num_qubits(), 4);
    assert!(circuit.size() > 0);
}

#[test]
fn test_generate_vqe_ansatz() {
    let circuit = generate_vqe_ansatz(4, 3);
    assert_eq!(circuit.num_qubits(), 4);
    assert!(circuit.size() > 0);
}

#[test]
fn test_generate_vqe_real_amplitudes() {
    let circuit = real_amplitudes(4, 3);
    assert_eq!(circuit.num_qubits(), 4);
    assert!(circuit.size() > 0);
}

#[test]
fn test_generate_vqe_uccsd() {
    let circuit = generate_vqe_uccsd(4, 2);
    assert_eq!(circuit.num_qubits(), 4);
    assert!(circuit.size() > 0);
}

#[test]
fn test_generate_vqe_uccsd_lih() {
    let circuit = generate_vqe_uccsd(6, 2);
    assert_eq!(circuit.num_qubits(), 6);
    assert!(circuit.size() > 0);
}

#[test]
fn test_generate_qaoa() {
    let circuit = generate_qaoa(4, 2);
    assert_eq!(circuit.num_qubits(), 4);
    assert!(circuit.size() > 0);
}

#[test]
fn test_generate_qdrift() {
    let circuit = qdrift(4, 20);
    assert_eq!(circuit.num_qubits(), 4);
    assert_eq!(circuit.size(), 20);
}

#[test]
fn test_generate_qdrift_with_zz() {
    let circuit = qdrift_with_zz(4, 30);
    assert_eq!(circuit.num_qubits(), 4);
    assert!(circuit.size() > 0);
}

#[test]
fn test_generate_qdrift_large() {
    let circuit = qdrift(6, 50);
    assert_eq!(circuit.num_qubits(), 6);
    assert_eq!(circuit.size(), 50);
}

#[test]
fn test_benchmark_gate_counts() {
    assert_eq!(generate_hamiltonian_simulation(4, 2).size(), 72);
    assert_eq!(generate_vqe_ansatz(4, 3).size(), 33);
    assert_eq!(real_amplitudes(4, 3).size(), 25);
    assert_eq!(generate_vqe_uccsd(4, 2).size(), 29);
    assert_eq!(generate_vqe_uccsd(6, 2).size(), 63);
    assert_eq!(generate_qaoa(4, 2).size(), 42);
    assert_eq!(qdrift_with_zz(4, 30).size(), 46);
    assert_eq!(generate_hamiltonian_simulation(0, 0).size(), 0);
    assert_eq!(generate_vqe_uccsd(2, 3).size(), 2);
}

#[test]
fn test_hamiltonian_step_layout() {
    let c = generate_hamiltonian_simulation(2, 1);
    assert_eq!(
        kinds(&c),
        vec![
            StandardGate::H, StandardGate::CX, StandardGate::Rz, StandardGate::CX, StandardGate::H,
            StandardGate::Ry, StandardGate::Ry, StandardGate::CX, StandardGate::Rz, StandardGate::CX,
            StandardGate::Ry, StandardGate::Ry,
        ]
    );
    assert_eq!(angle(&c, 2), 0.1);
    assert_eq!(angle(&c, 5), std::f64::consts::PI / 2.0);
    assert_eq!(angle(&c, 8), 0.2);
    assert_eq!(angle(&c, 10), -std::f64::consts::PI / 2.0);
    assert_eq!(c.instructions()[8].qubits, vec![1]);
}

#[test]
fn test_qaoa_and_uccsd_layout() {
    let q = generate_qaoa(2, 1);
    assert_eq!(
        kinds(&q),
        vec![
            StandardGate::H, StandardGate::H,
            StandardGate::H, StandardGate::CX, StandardGate::Rz, StandardGate::CX, StandardGate::H,
            StandardGate::Rx, StandardGate::Rx,
        ]
    );
    assert_eq!(angle(&q, 4), 0.4);
    assert_eq!(angle(&q, 8), 0.3);

    let u = generate_vqe_uccsd(3, 1);
    assert_eq!(
        kinds(&u),
        vec![
            StandardGate::Rx,
            StandardGate::Ry, StandardGate::Ry, StandardGate::CX, StandardGate::Rz, StandardGate::CX,
            StandardGate::Ry, StandardGate::Ry, StandardGate::CX, StandardGate::Rz, StandardGate::CX,
        ]
    );
    assert_eq!(angle(&u, 0), std::f64::consts::PI);
    assert_eq!(u.instructions()[8].qubits, vec![0, 2]);
}

#[test]
fn test_qdrift_sample_choice() {
    let c = qdrift(4, 3);
    // Sample 0: (0*13+5) % 3 = 2 -> Rz on qubit 3; sample 1: 18 % 3 = 0 -> Rx on qubit 2;
    // sample 2: 31 % 3 = 1 -> Ry on qubit 1.
    assert_eq!(kinds(&c), vec![StandardGate::Rz, StandardGate::Rx, StandardGate::Ry]);
    assert_eq!(c.instructions()[0].qubits, vec![3]);
    assert_eq!(c.instructions()[1].qubits, vec![2]);
    assert_eq!(c.instructions()[2].qubits, vec![1]);
    assert_eq!(angle(&c, 0), 2.0 / 3.0);

    // On one qubit the ZZ gadget has no partner and adds nothing.
    let single = qdrift_zz_circuit(1, 4, 0.5f64.to_bits());
    assert_eq!(single.size(), 3);
}

#[test]
fn test_real_amplitudes_angles() {
    let c = real_amplitudes(2, 1);
    assert_eq!(kinds(&c), vec![StandardGate::Ry, StandardGate::Ry, StandardGate::CX, StandardGate::Ry, StandardGate::Ry]);
    assert_eq!(angle(&c, 0), 0.2);
    assert_eq!(angle(&c, 1), 0.1 * 1.0 + 0.2);
    assert_eq!(angle(&c, 3), 0.5);
}

#[test]
fn test_benchmark_labels() {
    assert_ne!(BenchmarkCircuit::VQE, BenchmarkCircuit::QAOA);
    assert_eq!(OptimizationLevel::Heavy, OptimizationLevel::Heavy);
}
