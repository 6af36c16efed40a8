use myquat::gate_inverse::GateInverse;
use myquat::gates::{Gate, Parameter, StandardGate};

/// Numbers within 1e-10 of each other count as equal.
fn within_tolerance(a: u64, b: u64) -> bool {
    (f64::from_bits(a) - f64::from_bits(b)).abs() < 1e-10
}

/// The encoding of the difference of two encoded numbers.
fn difference(a: u64, b: u64) -> u64 {
    (f64::from_bits(a) - f64::from_bits(b)).to_bits()
}

fn plain(g: StandardGate) -> Gate {
    Gate {
        gate_type: g,
        parameters: vec![],
        label: None,
    }
}

#[test]
fn test_self_inverse_gates() {
    assert!(GateInverse::is_self_inverse(&plain(StandardGate::H)));
    assert!(GateInverse::is_self_inverse(&plain(StandardGate::X)));
    assert!(GateInverse::is_self_inverse(&plain(StandardGate::Y)));
    assert!(GateInverse::is_self_inverse(&plain(StandardGate::Z)));
}

#[test]
fn test_non_self_inverse_gates() {
    assert!(!GateInverse::is_self_inverse(&plain(StandardGate::S)));
    assert!(!GateInverse::is_self_inverse(&plain(StandardGate::T)));
}

#[test]
fn test_phase_gate_inverse() {
    let s_inv = GateInverse::inverse(&plain(StandardGate::S), difference).unwrap();
    assert_eq!(s_inv.gate_type, StandardGate::Sdg);

    let t_inv = GateInverse::inverse(&plain(StandardGate::T), difference).unwrap();
    assert_eq!(t_inv.gate_type, StandardGate::Tdg);
}

#[test]
fn test_rotation_gate_inverse() {
    let rx = Gate {
        gate_type: StandardGate::Rx,
        parameters: vec![Parameter::Float(1.5f64.to_bits())],
        label: None,
    };

    let rx_inv = GateInverse::inverse(&rx, difference).unwrap();

    assert_eq!(rx_inv.gate_type, StandardGate::Rx);
    assert_eq!(rx_inv.parameters.len(), 1);
    if let Parameter::Float(v) = rx_inv.parameters[0] {
        assert!((f64::from_bits(v) + 1.5).abs() < 1e-10);
    } else {
        panic!("Expected float parameter");
    }
}

#[test]
fn test_are_inverses() {
    let s = plain(StandardGate::S);
    let sdg = plain(StandardGate::Sdg);

    assert!(GateInverse::are_inverses(&s, &sdg, within_tolerance, difference).unwrap());
    assert!(GateInverse::are_inverses(&sdg, &s, within_tolerance, difference).unwrap());
}

#[test]
fn inverse_of_inverse_is_the_gate() {
    let g = Gate {
        gate_type: StandardGate::Rz,
        parameters: vec![Parameter::Float(0.25f64.to_bits())],
        label: None,
    };
    let back = GateInverse::inverse(&GateInverse::inverse(&g, difference).unwrap(), difference).unwrap();
    assert_eq!(back.gate_type, StandardGate::Rz);
    assert!(GateInverse::are_inverses(&g, &GateInverse::inverse(&g, difference).unwrap(), within_tolerance, difference).unwrap());
    if let Parameter::Float(v) = back.parameters[0] {
        assert_eq!(f64::from_bits(v), 0.25);
    } else {
        panic!("Expected float parameter");
    }
}

#[test]
fn symbolic_parameter_is_negated_by_prefix() {
    let g = Gate {
        gate_type: StandardGate::Ry,
        parameters: vec![Parameter::Symbol("theta".to_string())],
        label: None,
    };
    let inv = GateInverse::inverse(&g, difference).unwrap();
    match &inv.parameters[0] {
        Parameter::Symbol(s) => assert_eq!(s, "-theta"),
        _ => panic!("Expected symbol"),
    }
}

#[test]
fn different_gates_are_not_inverses() {
    assert!(!GateInverse::are_inverses(&plain(StandardGate::S), &plain(StandardGate::T), within_tolerance, difference).unwrap());
    assert!(GateInverse::are_inverses(&plain(StandardGate::H), &plain(StandardGate::H), within_tolerance, difference).unwrap());
}

fn float_gate(g: StandardGate, values: &[f64]) -> Gate {
    Gate {
        gate_type: g,
        parameters: values.iter().map(|v| Parameter::Float(v.to_bits())).collect(),
        label: None,
    }
}

fn float_values(g: &Gate) -> Vec<f64> {
    g.parameters
        .iter()
        .map(|p| match p {
            Parameter::Float(b) => f64::from_bits(*b),
            _ => panic!("Expected float parameter"),
        })
        .collect()
}

#[test]
fn inverse_of_u3_swaps_the_phase_angles() {
    let g = float_gate(StandardGate::U3, &[0.5, 0.25, 0.125]);
    let inv = GateInverse::inverse(&g, difference).unwrap();
    assert_eq!(inv.gate_type, StandardGate::U3);
    assert_eq!(float_values(&inv), vec![-0.5, -0.125, -0.25]);
    let back = GateInverse::inverse(&inv, difference).unwrap();
    assert_eq!(float_values(&back), vec![0.5, 0.25, 0.125]);
}

#[test]
fn inverse_of_u2_takes_the_swapped_angles_from_pi() {
    let g = float_gate(StandardGate::U2, &[0.25, 0.125]);
    let inv = GateInverse::inverse(&g, difference).unwrap();
    assert_eq!(inv.gate_type, StandardGate::U2);
    let pi = std::f64::consts::PI;
    assert_eq!(float_values(&inv), vec![pi - 0.125, pi - 0.25]);
}

#[test]
fn inverse_of_symbolic_u2_names_pi_minus_the_symbols() {
    let g = Gate {
        gate_type: StandardGate::U2,
        parameters: vec![Parameter::Symbol("phi".to_string()), Parameter::Symbol("lam".to_string())],
        label: None,
    };
    let inv = GateInverse::inverse(&g, difference).unwrap();
    assert_eq!(inv.gate_type, StandardGate::U2);
    match (&inv.parameters[0], &inv.parameters[1]) {
        (Parameter::Symbol(a), Parameter::Symbol(b)) => {
            assert_eq!(a, "pi-lam");
            assert_eq!(b, "pi-phi");
        }
        _ => panic!("Expected symbols"),
    }
    assert!(GateInverse::are_inverses(&g, &inv, within_tolerance, difference).unwrap());
}

#[test]
fn numbers_within_tolerance_are_inverse() {
    let rx = float_gate(StandardGate::Rx, &[0.1]);
    let almost = float_gate(StandardGate::Rx, &[f64::from_bits((-0.1f64).to_bits() + 1)]);
    assert!(GateInverse::are_inverses(&rx, &almost, within_tolerance, difference).unwrap());
    let far = float_gate(StandardGate::Rx, &[-0.2]);
    assert!(!GateInverse::are_inverses(&rx, &far, within_tolerance, difference).unwrap());
}

#[test]
fn expression_parameter_has_no_inverse() {
    let g = Gate {
        gate_type: StandardGate::Rz,
        parameters: vec![Parameter::Expression("a+b".to_string())],
        label: None,
    };
    assert!(GateInverse::are_inverses(&g, &g, within_tolerance, difference).is_err());
}
