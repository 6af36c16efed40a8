use myquat::compute::simd::amplitude_pairs;
use myquat::compute::gpu_backend::{should_use_gpu, GpuBackend, GpuCapability};
use myquat::compute::simd_two_qubit_gates::{apply_cnot, apply_cz, apply_swap, qubit_count, Amplitude};

fn amp(re: f64, im: f64) -> Amplitude {
    Amplitude { re: re.to_bits(), im: im.to_bits() }
}

fn re(a: Amplitude) -> f64 {
    f64::from_bits(a.re)
}

fn state(values: &[f64]) -> Vec<Amplitude> {
    values.iter().map(|&v| amp(v, 0.0)).collect()
}

#[test]
fn test_simd_cnot_distinct_amplitudes() {
    // CNOT(control=0, target=1): when q0=1, flip q1.
    let mut state = state(&[1.0, 2.0, 3.0, 4.0]);

    apply_cnot(&mut state, 0, 1).unwrap();

    // |00> and |10> unchanged (control q0=0)
    assert!((re(state[0]) - 1.0).abs() < 1e-10);
    assert!((re(state[2]) - 3.0).abs() < 1e-10);
    // |01> <-> |11> swapped (control q0=1, target q1 flipped)
    assert!((re(state[1]) - 4.0).abs() < 1e-10);
    assert!((re(state[3]) - 2.0).abs() < 1e-10);
}

#[test]
fn test_simd_cnot_swapped_qubits() {
    // CNOT(control=1, target=0): when q1=1, flip q0.
    let mut state = state(&[1.0, 2.0, 3.0, 4.0]);

    apply_cnot(&mut state, 1, 0).unwrap();

    // |00> and |01> unchanged (control q1=0)
    assert!((re(state[0]) - 1.0).abs() < 1e-10);
    assert!((re(state[1]) - 2.0).abs() < 1e-10);
    // |10> <-> |11> swapped (control q1=1, target q0 flipped)
    assert!((re(state[2]) - 4.0).abs() < 1e-10);
    assert!((re(state[3]) - 3.0).abs() < 1e-10);
}

#[test]
fn test_simd_cz() {
    let mut state = state(&[0.5, 0.5, 0.5, 0.5]);

    apply_cz(&mut state, 0, 1).unwrap();

    // After CZ(0,1): only |11> gets phase flip
    assert!((re(state[0]) - 0.5).abs() < 1e-10);
    assert!((re(state[1]) - 0.5).abs() < 1e-10);
    assert!((re(state[2]) - 0.5).abs() < 1e-10);
    assert!((re(state[3]) + 0.5).abs() < 1e-10);
}

#[test]
fn test_simd_swap() {
    let mut state = state(&[1.0, 0.0, 0.0, 0.0]);

    apply_swap(&mut state, 0, 1).unwrap();

    // SWAP doesn't change |00>
    assert!((re(state[0]) - 1.0).abs() < 1e-10);
}

#[test]
fn test_qubit_count_and_errors() {
    assert_eq!(qubit_count(0), 0);
    assert_eq!(qubit_count(1), 0);
    assert_eq!(qubit_count(2), 1);
    assert_eq!(qubit_count(8), 3);
    assert_eq!(qubit_count(12), 3);

    let mut s = state(&[1.0, 2.0, 3.0, 4.0]);
    let e = apply_cnot(&mut s, 0, 2).unwrap_err();
    assert_eq!(e.to_string(), "Invalid gate parameter: Qubit index out of range");
    let e = apply_cz(&mut s, 1, 1).unwrap_err();
    assert_eq!(e.to_string(), "Invalid gate parameter: Control and target must be different");
    let e = apply_swap(&mut s, 2, 0).unwrap_err();
    assert_eq!(e.to_string(), "Invalid gate parameter: Qubit index out of range");
    assert_eq!(s, state(&[1.0, 2.0, 3.0, 4.0]));

    // Swapping a qubit with itself changes nothing.
    apply_swap(&mut s, 1, 1).unwrap();
    assert_eq!(s, state(&[1.0, 2.0, 3.0, 4.0]));
}

#[test]
fn test_gates_undo_themselves() {
    let original: Vec<Amplitude> = (0..8).map(|i| amp(i as f64, -(i as f64) / 2.0)).collect();
    let mut s = original.clone();
    apply_cnot(&mut s, 2, 0).unwrap();
    assert_eq!(s[5], original[4]);
    assert_eq!(s[4], original[5]);
    apply_cnot(&mut s, 2, 0).unwrap();
    assert_eq!(s, original);

    apply_swap(&mut s, 0, 2).unwrap();
    assert_eq!(s[1], original[4]);
    assert_eq!(s[6], original[3]);
    apply_swap(&mut s, 0, 2).unwrap();
    assert_eq!(s, original);

    apply_cz(&mut s, 0, 1).unwrap();
    assert_eq!(re(s[3]), -3.0);
    assert_eq!(f64::from_bits(s[7].im), 3.5);
    apply_cz(&mut s, 0, 1).unwrap();
    assert_eq!(s, original);
}

#[test]
fn test_cnot_on_length_not_a_power_of_two() {
    // Six amplitudes describe two qubits; index 5 = 0b101 would pair with 7,
    // which does not exist, so it stays.
    let mut s = state(&[0.0, 1.0, 2.0, 3.0, 4.0, 5.0]);
    apply_cnot(&mut s, 0, 1).unwrap();
    assert_eq!(s, state(&[0.0, 3.0, 2.0, 1.0, 4.0, 5.0]));
}

#[test]
fn test_gpu_backend_selection() {
    let cap = GpuCapability::from_probes(false, true, true);
    assert_eq!(cap.device_count, 1);
    assert_eq!(f64::from_bits(cap.memory_gb), 4.0);
    assert!(cap.is_available());
    assert_eq!(cap.best_backend(), GpuBackend::OpenCL);
    assert_eq!(GpuCapability::from_probes(true, true, true).best_backend(), GpuBackend::Cuda);
    assert_eq!(GpuCapability::from_probes(false, false, true).best_backend(), GpuBackend::ComputeShader);
    let none = GpuCapability::from_probes(false, false, false);
    assert_eq!(none.device_count, 0);
    assert!(!none.is_available());
    assert_eq!(none.best_backend(), GpuBackend::NoGpu);
    assert_eq!(GpuBackend::Cuda.to_string(), "CUDA");
    assert_eq!(GpuBackend::NoGpu.to_string(), "无GPU加速");
    assert_eq!(GpuBackend::ComputeShader.to_string(), "计算着色器");
}

#[test]
fn test_gpu_executor() {
    // Test execution decision
    assert!(!should_use_gpu(1024)); // 10 qubits - use CPU
    assert!(should_use_gpu(4096)); // 12 qubits - use GPU
    assert!(should_use_gpu(16384)); // 14 qubits - use GPU
}

#[test]
fn single_qubit_gate_pairs() {
    // qubit 0 is the most significant of three
    assert_eq!(amplitude_pairs(8, 3, 0), vec![(0, 4), (1, 5), (2, 6), (3, 7)]);
    assert_eq!(amplitude_pairs(8, 3, 2), vec![(0, 1), (2, 3), (4, 5), (6, 7)]);
    assert_eq!(amplitude_pairs(8, 3, 1), vec![(0, 2), (1, 3), (4, 6), (5, 7)]);
    // a truncated state keeps only the pairs that lie inside it
    assert_eq!(amplitude_pairs(6, 3, 0), vec![(0, 4), (1, 5)]);
    assert_eq!(amplitude_pairs(0, 1, 0), vec![]);
}
