//! Inputs of temporal analysis: the rotation angles of a circuit and the
//! Suzuki coefficients that fingerprint a Trotter decomposition.
//!
//! Angles are binary64 encodings; the absolute value of an encoding is the
//! encoding with its sign bit cleared.

use vstd::prelude::*;
use crate::circuit::{views, InstrView, QuantumCircuit};
use crate::gates::{Parameter, StandardGate};

verus! {

/// Every bit of an encoding but its sign bit.
pub const MAGNITUDE_BITS: u64 = 0x7fffffffffffffffu64;

/// The rotation kinds whose first parameter is an angle.
pub open spec fn is_angle_gate(g: StandardGate) -> bool {
    match g {
        StandardGate::Rx | StandardGate::Ry | StandardGate::Rz | StandardGate::P | StandardGate::CRx
        | StandardGate::CRy | StandardGate::CRz | StandardGate::CP => true,
        _ => false,
    }
}

/// The absolute values of the numeric first angles of the rotations in
/// `ops`, in order.
pub open spec fn angles_of(ops: Seq<InstrView>) -> Seq<u64>
    decreases ops.len(),
{
    if ops.len() == 0 {
        Seq::empty()
    } else {
        let o = ops.last();
        let rest = angles_of(ops.drop_last());
        if is_angle_gate(o.gate) && o.params.len() > 0 {
            match o.params[0] {
                Parameter::Float(b) => rest.push(b & MAGNITUDE_BITS),
                _ => rest,
            }
        } else {
            rest
        }
    }
}

/// Extract rotation angles from a circuit: the absolute value of the first
/// parameter of each rotation gate whose first parameter is a number
pub fn extract_angles(circuit: &QuantumCircuit) -> (r: Vec<u64>)
    ensures
        r@ == angles_of(circuit@.ops),
{
    let instrs = circuit.instructions();
    let ghost ops = circuit@.ops;
    let mut angles: Vec<u64> = Vec::new();
    let mut i: usize = 0;
    proof {
        assert(ops.take(0) =~= Seq::<InstrView>::empty());
    }
    while i < instrs.len()
        invariant
            i <= instrs.len(),
            views(instrs@) == ops,
            angles@ == angles_of(ops.take(i as int)),
        decreases instrs.len() - i,
    {
        let inst = &instrs[i];
        proof {
            assert(ops.take(i + 1).drop_last() =~= ops.take(i as int));
            assert(ops.take(i + 1).last() == inst@);
        }
        let is_rotation = match inst.gate.gate_type {
            StandardGate::Rx | StandardGate::Ry | StandardGate::Rz | StandardGate::P | StandardGate::CRx
            | StandardGate::CRy | StandardGate::CRz | StandardGate::CP => true,
            _ => false,
        };
        if is_rotation && inst.gate.parameters.len() > 0 {
            match &inst.gate.parameters[0] {
                Parameter::Float(angle) => angles.push(*angle & MAGNITUDE_BITS),
                _ => {},
            }
        }
        i = i + 1;
    }
    proof {
        assert(ops.take(i as int) =~= ops);
    }
    angles
}

/// The Suzuki coefficient of a Trotter order (binary64 encoding): orders 2
/// (unused, zero), 4, 6, 8 and 10 have one.
pub open spec fn suzuki_coefficient_spec(order: usize) -> Option<u64> {
    if order == 2 {
        Some(0)
    } else if order == 4 {
        Some(0x3fda87044d5670efu64)
    } else if order == 6 {
        Some(0x3fd7e06a1795cf9bu64)
    } else if order == 8 {
        Some(0x3fd703862ae7b909u64)
    } else if order == 10 {
        Some(0x3fd6964fad4d41ecu64)
    } else {
        None
    }
}

/// Get Suzuki coefficient for given order (binary64 encoding)
pub fn get_suzuki_coeff(order: usize) -> (r: Option<u64>)
    ensures
        r == suzuki_coefficient_spec(order),
{
    if order == 2 {
        Some(0)
    } else if order == 4 {
        Some(0x3fda87044d5670efu64)
    } else if order == 6 {
        Some(0x3fd7e06a1795cf9bu64)
    } else if order == 8 {
        Some(0x3fd703862ae7b909u64)
    } else if order == 10 {
        Some(0x3fd6964fad4d41ecu64)
    } else {
        None
    }
}

} // verus!
