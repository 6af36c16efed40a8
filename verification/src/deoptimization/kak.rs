//! Recognition of decomposed two-qubit Pauli rotations (KAK restoration).
//!
//! The decompositions recognised are
//! - ZZ: H(q0) CX(q0,q1) Rz(θ,q1) CX(q0,q1) H(q0)
//! - XX: Ry(q0) Ry(q1) CX(q0,q1) Rz(θ,q1) CX(q0,q1) Ry(q0) Ry(q1)
//! - YY: Rx(q0) Rx(q1) CX(q0,q1) Rz(θ,q1) CX(q0,q1) Rx(q0) Rx(q1)
//!
//! A window of gates is matched on its gate kinds and on the list of all
//! qubits its gates act on, in order.

use vstd::prelude::*;
use crate::circuit::{views, InstrView, Instruction};
use crate::gates::{duplicate_parameters, Gate, GateView, Parameter, StandardGate};

verus! {

/// The two-qubit Pauli interaction of a recognised rotation.
#[derive(Debug, Clone, Copy, PartialEq, Eq, Structural)]
pub enum PauliPair {
    ZZ,
    XX,
    YY,
}

/// A recognised rotation: its interaction, its angle (binary64 encoding)
/// and its two qubits.
#[derive(Debug, Clone, Copy, PartialEq, Eq, Structural)]
pub struct KakPattern {
    pub pauli: PauliPair,
    pub angle: u64,
    pub q0: usize,
    pub q1: usize,
}

/// 0.95, the confidence of a ZZ match.
pub const ZZ_CONFIDENCE: u64 = 0x3fee666666666666u64;

/// 0.9, the confidence of an XX or YY match.
pub const PAIR_CONFIDENCE: u64 = 0x3feccccccccccccdu64;

impl PauliPair {
    /// Pauli string of the interaction
    pub fn pauli_string(&self) -> (r: &'static str)
        ensures
            r@ == (match *self {
                PauliPair::ZZ => "ZZ"@,
                PauliPair::XX => "XX"@,
                PauliPair::YY => "YY"@,
            }),
    {
        match self {
            PauliPair::ZZ => "ZZ",
            PauliPair::XX => "XX",
            PauliPair::YY => "YY",
        }
    }

    /// Confidence of a match of this interaction (binary64 encoding): 0.95
    /// for ZZ, 0.9 for XX and YY
    pub fn confidence(&self) -> (r: u64)
        ensures
            r == (if *self == PauliPair::ZZ { ZZ_CONFIDENCE } else { PAIR_CONFIDENCE }),
    {
        match self {
            PauliPair::ZZ => ZZ_CONFIDENCE,
            _ => PAIR_CONFIDENCE,
        }
    }
}

/// The encoding of the first parameter of `g`, when it is a number.
pub open spec fn first_angle(g: GateView) -> Option<u64> {
    if g.parameters.len() > 0 {
        match g.parameters[0] {
            Parameter::Float(b) => Some(b),
            _ => None,
        }
    } else {
        None
    }
}

/// Extract rotation angle from a parametric gate: its first parameter, when
/// that is a number
pub fn extract_angle(gate: &Gate) -> (r: Option<u64>)
    ensures
        r == first_angle(gate@),
{
    if gate.parameters.len() == 0 {
        return None;
    }
    match &gate.parameters[0] {
        Parameter::Float(angle) => Some(*angle),
        _ => None,
    }
}

/// The ZZ decomposition, if `gates` and their `qubits` are one: the kinds
/// H, CX, Rz, CX, H; the qubit list `[q0, q0, q1, q1, q0, q1, q0]`; a numeric
/// angle on the Z rotation.
pub open spec fn zz_match(gates: Seq<GateView>, qubits: Seq<usize>) -> Option<KakPattern> {
    if gates.len() == 5 && qubits.len() == 7 && gates[0].gate_type == StandardGate::H && gates[1].gate_type
        == StandardGate::CX && gates[2].gate_type == StandardGate::Rz && gates[3].gate_type == StandardGate::CX
        && gates[4].gate_type == StandardGate::H && qubits[0] == qubits[1] && qubits[0] == qubits[4] && qubits[0]
        == qubits[6] && qubits[2] == qubits[5] && qubits[2] == qubits[3] && first_angle(gates[2]) is Some {
        Some(KakPattern { pauli: PauliPair::ZZ, angle: first_angle(gates[2])->0, q0: qubits[0], q1: qubits[2] })
    } else {
        None
    }
}

/// The XX (with `turn` the Y rotation) or YY (with `turn` the X rotation)
/// decomposition, if `gates` and their `qubits` are one: the kinds turn,
/// turn, CX, Rz, CX, turn, turn; the nine qubit arguments of those gates;
/// a numeric angle on the Z rotation. The qubits are the first two arguments.
pub open spec fn pair_match(
    pauli: PauliPair,
    turn: StandardGate,
    gates: Seq<GateView>,
    qubits: Seq<usize>,
) -> Option<KakPattern> {
    if gates.len() == 7 && qubits.len() == 9 && gates[0].gate_type == turn && gates[1].gate_type == turn
        && gates[2].gate_type == StandardGate::CX && gates[3].gate_type == StandardGate::Rz && gates[4].gate_type
        == StandardGate::CX && gates[5].gate_type == turn && gates[6].gate_type == turn && first_angle(gates[3]) is Some {
        Some(KakPattern { pauli, angle: first_angle(gates[3])->0, q0: qubits[0], q1: qubits[1] })
    } else {
        None
    }
}

/// The models of a list of gates.
pub open spec fn gate_views(s: Seq<Gate>) -> Seq<GateView> {
    s.map_values(|g: Gate| g@)
}

/// Try to match the ZZ decomposition
pub fn match_zz_pattern(gates: &Vec<Gate>, qubits: &Vec<usize>) -> (r: Option<KakPattern>)
    ensures
        r == zz_match(gate_views(gates@), qubits@),
{
    if gates.len() != 5 || qubits.len() != 7 {
        return None;
    }
    if gates[0].gate_type != StandardGate::H || gates[1].gate_type != StandardGate::CX || gates[2].gate_type
        != StandardGate::Rz || gates[3].gate_type != StandardGate::CX || gates[4].gate_type != StandardGate::H {
        return None;
    }
    let q0 = qubits[0];
    if q0 != qubits[1] || q0 != qubits[4] || q0 != qubits[6] {
        return None;
    }
    let q1 = qubits[2];
    if q1 != qubits[5] || q1 != qubits[3] {
        return None;
    }
    match extract_angle(&gates[2]) {
        Some(angle) => Some(KakPattern { pauli: PauliPair::ZZ, angle, q0, q1 }),
        None => None,
    }
}

/// Match the XX or YY decomposition whose basis changes are `turn` gates.
fn match_pair(pauli: PauliPair, turn: StandardGate, gates: &Vec<Gate>, qubits: &Vec<usize>) -> (r: Option<KakPattern>)
    ensures
        r == pair_match(pauli, turn, gate_views(gates@), qubits@),
{
    if gates.len() != 7 || qubits.len() != 9 {
        return None;
    }
    if gates[0].gate_type == turn && gates[1].gate_type == turn && gates[2].gate_type == StandardGate::CX
        && gates[3].gate_type == StandardGate::Rz && gates[4].gate_type == StandardGate::CX && gates[5].gate_type
        == turn && gates[6].gate_type == turn {
        match extract_angle(&gates[3]) {
            Some(angle) => Some(KakPattern { pauli, angle, q0: qubits[0], q1: qubits[1] }),
            None => None,
        }
    } else {
        None
    }
}

/// Try to match the XX decomposition (Y rotations around a ZZ core)
pub fn match_xx_pattern(gates: &Vec<Gate>, qubits: &Vec<usize>) -> (r: Option<KakPattern>)
    ensures
        r == pair_match(PauliPair::XX, StandardGate::Ry, gate_views(gates@), qubits@),
{
    match_pair(PauliPair::XX, StandardGate::Ry, gates, qubits)
}

/// Try to match the YY decomposition (X rotations around a ZZ core)
pub fn match_yy_pattern(gates: &Vec<Gate>, qubits: &Vec<usize>) -> (r: Option<KakPattern>)
    ensures
        r == pair_match(PauliPair::YY, StandardGate::Rx, gate_views(gates@), qubits@),
{
    match_pair(PauliPair::YY, StandardGate::Rx, gates, qubits)
}

/// Kind, parameters and label of an instruction.
pub open spec fn gate_of(o: InstrView) -> GateView {
    GateView { gate_type: o.gate, parameters: o.params, label: o.label }
}

/// All qubit arguments of `ops`, in order.
pub open spec fn flat_qubits(ops: Seq<InstrView>) -> Seq<usize>
    decreases ops.len(),
{
    if ops.len() == 0 {
        Seq::empty()
    } else {
        flat_qubits(ops.drop_last()) + ops.last().qubits
    }
}

/// The gates of the `w` instructions from position `i`.
pub open spec fn window_gates(ops: Seq<InstrView>, i: int, w: int) -> Seq<GateView> {
    ops.subrange(i, i + w).map_values(|o: InstrView| gate_of(o))
}

/// The qubit arguments of the `w` instructions from position `i`.
pub open spec fn window_qubits(ops: Seq<InstrView>, i: int, w: int) -> Seq<usize> {
    flat_qubits(ops.subrange(i, i + w))
}

/// A match found at position `i`, as a one-entry list, or the empty list.
pub open spec fn found(i: int, m: Option<KakPattern>) -> Seq<(usize, KakPattern)> {
    match m {
        Some(p) => seq![(i as usize, p)],
        None => Seq::empty(),
    }
}

/// The matches that start at position `i`: the ZZ decomposition in the
/// five instructions from there, then the XX and the YY ones in the seven
/// from there, each only when the window fits below `window_size` and the
/// end of `ops`, and only the kinds accepted.
pub open spec fn patterns_at(
    ops: Seq<InstrView>,
    i: int,
    window_size: nat,
    accept_zz: bool,
    accept_pairs: bool,
) -> Seq<(usize, KakPattern)> {
    let room = if window_size <= ops.len() - i { window_size as int } else { ops.len() - i };
    let zz = if room >= 5 && accept_zz {
        found(i, zz_match(window_gates(ops, i, 5), window_qubits(ops, i, 5)))
    } else {
        Seq::empty()
    };
    let pairs = if room >= 7 && accept_pairs {
        found(i, pair_match(PauliPair::XX, StandardGate::Ry, window_gates(ops, i, 7), window_qubits(ops, i, 7)))
            + found(
            i,
            pair_match(PauliPair::YY, StandardGate::Rx, window_gates(ops, i, 7), window_qubits(ops, i, 7)),
        )
    } else {
        Seq::empty()
    };
    zz + pairs
}

/// The matches starting before position `k`, by position.
pub open spec fn patterns_before(
    ops: Seq<InstrView>,
    k: nat,
    window_size: nat,
    accept_zz: bool,
    accept_pairs: bool,
) -> Seq<(usize, KakPattern)>
    decreases k,
{
    if k == 0 {
        Seq::empty()
    } else {
        patterns_before(ops, (k - 1) as nat, window_size, accept_zz, accept_pairs) + patterns_at(
            ops,
            k - 1,
            window_size,
            accept_zz,
            accept_pairs,
        )
    }
}

/// An exact copy of a gate.
fn copy_gate(g: &Gate) -> (r: Gate)
    ensures
        r@ == g@,
{
    Gate {
        gate_type: g.gate_type,
        parameters: duplicate_parameters(&g.parameters),
        label: match &g.label {
            Some(s) => Some(s.clone()),
            None => None,
        },
    }
}

/// The gates and the qubit arguments of the `w` instructions from position `i`.
fn window(instrs: &Vec<Instruction>, i: usize, w: usize) -> (r: (Vec<Gate>, Vec<usize>))
    requires
        i + w <= instrs.len(),
    ensures
        gate_views(r.0@) == window_gates(views(instrs@), i as int, w as int),
        r.1@ == window_qubits(views(instrs@), i as int, w as int),
{
    let ghost ops = views(instrs@);
    let mut gates: Vec<Gate> = Vec::new();
    let mut qubits: Vec<usize> = Vec::new();
    let mut k: usize = 0;
    proof {
        assert(gate_views(gates@) =~= window_gates(ops, i as int, 0));
        assert(ops.subrange(i as int, i as int) =~= Seq::<InstrView>::empty());
    }
    while k < w
        invariant
            k <= w,
            i + w <= instrs.len(),
            ops == views(instrs@),
            gate_views(gates@) == window_gates(ops, i as int, k as int),
            qubits@ == window_qubits(ops, i as int, k as int),
        decreases w - k,
    {
        let ins = &instrs[i + k];
        let ghost o = ops[i + k];
        assert(o == ins@);
        let g = copy_gate(&ins.gate);
        let ghost gb = gates@;
        assert(g@ == gate_of(o));
        gates.push(g);
        assert(gate_views(gates@) =~= gate_views(gb).push(gate_of(o)));
        assert(window_gates(ops, i as int, k + 1) =~= window_gates(ops, i as int, k as int).push(gate_of(o)));
        let mut more = ins.qubits.clone();
        let ghost before = qubits@;
        assert(more@ == o.qubits);
        qubits.append(&mut more);
        proof {
            assert(ops.subrange(i as int, i + k + 1).drop_last() =~= ops.subrange(i as int, i + k as int));
            assert(ops.subrange(i as int, i + k + 1).last() == o);
        }
        k = k + 1;
        assert(gate_views(gates@) =~= window_gates(ops, i as int, k as int));
        assert(qubits@ =~= window_qubits(ops, i as int, k as int));
    }
    (gates, qubits)
}

/// Scan a circuit's instructions for decomposed Pauli rotations: at each
/// position, the ZZ decomposition in the next five instructions, then the
/// XX and the YY ones in the next seven, each where the window fits below
/// `window_size`; matches of ZZ are kept when `accept_zz` holds, those of
/// XX and YY when `accept_pairs` holds
pub fn identify_patterns(
    instructions: &Vec<Instruction>,
    window_size: usize,
    accept_zz: bool,
    accept_pairs: bool,
) -> (r: Vec<(usize, KakPattern)>)
    ensures
        r@ == patterns_before(
            views(instructions@),
            instructions@.len() as nat,
            window_size as nat,
            accept_zz,
            accept_pairs,
        ),
{
    let ghost ops = views(instructions@);
    let n = instructions.len();
    let mut identified: Vec<(usize, KakPattern)> = Vec::new();
    let mut i: usize = 0;
    while i < n
        invariant
            i <= n,
            n == instructions@.len(),
            ops == views(instructions@),
            identified@ == patterns_before(ops, i as nat, window_size as nat, accept_zz, accept_pairs),
        decreases n - i,
    {
        let ghost before = identified@;
        let room = if window_size <= n - i { window_size } else { n - i };
        let mut zz: Vec<(usize, KakPattern)> = Vec::new();
        if room >= 5 && accept_zz {
            let (gates, qubits) = window(instructions, i, 5);
            match match_zz_pattern(&gates, &qubits) {
                Some(p) => zz.push((i, p)),
                None => {},
            }
        }
        assert(zz@ == (if room >= 5 && accept_zz {
            found(i as int, zz_match(window_gates(ops, i as int, 5), window_qubits(ops, i as int, 5)))
        } else {
            Seq::empty()
        }));
        let mut pairs: Vec<(usize, KakPattern)> = Vec::new();
        if room >= 7 && accept_pairs {
            let (gates, qubits) = window(instructions, i, 7);
            match match_xx_pattern(&gates, &qubits) {
                Some(p) => pairs.push((i, p)),
                None => {},
            }
            match match_yy_pattern(&gates, &qubits) {
                Some(p) => pairs.push((i, p)),
                None => {},
            }
        }
        assert(pairs@ =~= (if room >= 7 && accept_pairs {
            found(
                i as int,
                pair_match(PauliPair::XX, StandardGate::Ry, window_gates(ops, i as int, 7), window_qubits(ops, i as int, 7)),
            ) + found(
                i as int,
                pair_match(PauliPair::YY, StandardGate::Rx, window_gates(ops, i as int, 7), window_qubits(ops, i as int, 7)),
            )
        } else {
            Seq::empty()
        }));
        identified.append(&mut zz);
        identified.append(&mut pairs);
        proof {
            assert(identified@ =~= before + patterns_at(ops, i as int, window_size as nat, accept_zz, accept_pairs));
        }
        i = i + 1;
    }
    identified
}

} // verus!
