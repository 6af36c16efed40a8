use myquat::compute::simd::lane_width;
use myquat::density_matrix::combine_states;
#[test]
fn test_thermal_relaxation_t2_equals_2t1_no_pure_dephasing() {
    let t1: f64 = 100.0;
    let t2: f64 = 2.0 * t1;
    let time: f64 = 10.0;

    let gamma_phi = 1.0 - (-time * (1.0 / t2 - 1.0 / (2.0 * t1))).exp();
    assert!(
        gamma_phi.abs() < 1e-15_f64,
        "Expected γ_φ = 0 when T2 = 2*T1, got {}",
        gamma_phi
    );

    let t2_small: f64 = 50.0;
    let gamma_phi_small: f64 = 1.0 - (-time * (1.0 / t2_small - 1.0 / (2.0 * t1))).exp();
    assert!(gamma_phi_small > 0.0, "Expected γ_φ > 0 when T2 < 2*T1");
    assert!(gamma_phi_small < 1.0, "Expected γ_φ < 1");
}

#[test]
fn combined_index_interleaves_bits() {
    // qubits 0 and 2 kept (reduced bits 1, 0), qubit 1 traced (bit 1)
    assert_eq!(combine_states(0b01, 0b1, &[0, 2], &[1]), 0b011);
    assert_eq!(combine_states(0b10, 0b0, &[0, 2], &[1]), 0b100);
    assert_eq!(combine_states(0, 0, &[], &[]), 0);
}

#[test]
fn test_simd_availability() {
    use_lane_width();
}

fn use_lane_width() {
    println!("SIMD width: {}", lane_width(true));
    println!("scalar width: {}", lane_width(false));
    assert_eq!(lane_width(true), 4);
    assert_eq!(lane_width(false), 1);
}
