//! Decompositions of common gates into basic gate sets.
//!
//! Each decomposition appends a fixed gate sequence, chosen by the target
//! gate set, to a circuit; the sequences are stated by the spec functions of
//! this module, and every decomposition adds exactly its sequence as far as
//! the circuit accepts it (see `circuit::emits`).

use vstd::prelude::*;
use crate::circuit::{emits, op1, op1f, op1p, op2, views, InstrView, Instruction, QuantumCircuit};
use crate::basis_action::{basis_action, lemma_sequence_cons, one_qubit_action, sequence_action};
use crate::error::Result;
use crate::gates::{
    Parameter, StandardGate, HALF_PI_BITS, NEG_HALF_PI_BITS, PI_BITS, QUARTER_PI_BITS,
};

verus! {

/// Standard gate set for decomposition
#[derive(Debug, Clone, Copy, PartialEq, Eq, Structural)]
pub enum GateSet {
    /// Clifford+T gate set: {H, S, T, CNOT}
    CliffordT,
    /// Universal gate set: {Rx, Ry, Rz, CNOT}
    Universal,
    /// IBM gate set: {U1, U2, U3, CNOT}
    IBM,
    /// Rigetti gate set: {RZ, RX(pi/2), CZ}
    Rigetti,
    /// IonQ gate set: {GPi, GPi2, MS}
    IonQ,
}

/// Gates emitted for a Hadamard on `q`, in the order they are applied.
///
/// With Rz(t) = diag(e^(-it/2), e^(it/2)) and the product of a sequence taken
/// with its last gate leftmost, each sequence is H up to a global phase:
/// Rz(pi/2) Rx(pi/2) Rz(pi/2) = -i H, Ry(pi/2) Rz(pi) = -i H (that is
/// U3(pi/2, 0, pi)), and Rx(pi) Ry(pi/2) = -i H.
pub open spec fn hadamard_ops(gs: GateSet, q: usize) -> Seq<InstrView> {
    match gs {
        GateSet::CliffordT => seq![op1(StandardGate::H, q)],
        GateSet::Universal => seq![
            op1f(StandardGate::Rz, q, HALF_PI_BITS),
            op1f(StandardGate::Rx, q, HALF_PI_BITS),
            op1f(StandardGate::Rz, q, HALF_PI_BITS),
        ],
        GateSet::IBM => seq![op1f(StandardGate::Rz, q, PI_BITS), op1f(StandardGate::Ry, q, HALF_PI_BITS)],
        GateSet::Rigetti => seq![
            op1f(StandardGate::Rz, q, HALF_PI_BITS),
            op1f(StandardGate::Rx, q, HALF_PI_BITS),
            op1f(StandardGate::Rz, q, HALF_PI_BITS),
        ],
        GateSet::IonQ => seq![op1f(StandardGate::Ry, q, HALF_PI_BITS), op1f(StandardGate::Rx, q, PI_BITS)],
    }
}

/// Gates emitted for a Pauli-X on `q`, in the order they are applied; for
/// IBM this is U3(pi, 0, pi): Ry(pi) Rz(pi) = -i X.
pub open spec fn x_ops(gs: GateSet, q: usize) -> Seq<InstrView> {
    match gs {
        GateSet::CliffordT => seq![op1(StandardGate::H, q), op1(StandardGate::Z, q), op1(StandardGate::H, q)],
        GateSet::IBM => seq![op1f(StandardGate::Rz, q, PI_BITS), op1f(StandardGate::Ry, q, PI_BITS)],
        _ => seq![op1f(StandardGate::Rx, q, PI_BITS)],
    }
}

/// Gates emitted for a Pauli-Y on `q`.
pub open spec fn y_ops(gs: GateSet, q: usize) -> Seq<InstrView> {
    match gs {
        GateSet::CliffordT => seq![op1(StandardGate::S, q), op1(StandardGate::X, q), op1(StandardGate::Sdg, q)],
        GateSet::IBM => seq![
            op1f(StandardGate::Rz, q, HALF_PI_BITS),
            op1f(StandardGate::Ry, q, PI_BITS),
            op1f(StandardGate::Rz, q, HALF_PI_BITS),
        ],
        GateSet::Rigetti => seq![
            op1f(StandardGate::Rz, q, HALF_PI_BITS),
            op1f(StandardGate::Rx, q, PI_BITS),
            op1f(StandardGate::Rz, q, NEG_HALF_PI_BITS),
        ],
        _ => seq![op1f(StandardGate::Ry, q, PI_BITS)],
    }
}

/// Gates emitted for a Pauli-Z on `q`.
pub open spec fn z_ops(gs: GateSet, q: usize) -> Seq<InstrView> {
    match gs {
        GateSet::CliffordT => seq![op1(StandardGate::S, q), op1(StandardGate::S, q)],
        _ => seq![op1f(StandardGate::Rz, q, PI_BITS)],
    }
}

/// Gates emitted for an S gate on `q`.
pub open spec fn s_ops(gs: GateSet, q: usize) -> Seq<InstrView> {
    match gs {
        GateSet::CliffordT => seq![op1(StandardGate::S, q)],
        _ => seq![op1f(StandardGate::Rz, q, HALF_PI_BITS)],
    }
}

/// Gates emitted for a T gate on `q`.
pub open spec fn t_ops(gs: GateSet, q: usize) -> Seq<InstrView> {
    match gs {
        GateSet::CliffordT => seq![op1(StandardGate::T, q)],
        _ => seq![op1f(StandardGate::Rz, q, QUARTER_PI_BITS)],
    }
}

/// Gates emitted for Rz(`a`) on `q`: Rz is kept as it is by every gate set.
pub open spec fn rz_ops(gs: GateSet, q: usize, a: Parameter) -> Seq<InstrView> {
    seq![op1p(StandardGate::Rz, q, a)]
}

/// Gates emitted for Rx(`a`) on `q`, in the order they are applied; for IBM
/// this is U3(a, -pi/2, pi/2): Rz(-pi/2) Ry(a) Rz(pi/2) = Rx(a).
pub open spec fn rx_ops(gs: GateSet, q: usize, a: Parameter) -> Seq<InstrView> {
    match gs {
        GateSet::CliffordT => seq![op1(StandardGate::H, q)] + rz_ops(gs, q, a) + seq![op1(StandardGate::H, q)],
        GateSet::IBM => seq![
            op1f(StandardGate::Rz, q, HALF_PI_BITS),
            op1p(StandardGate::Ry, q, a),
            op1f(StandardGate::Rz, q, NEG_HALF_PI_BITS),
        ],
        _ => seq![op1p(StandardGate::Rx, q, a)],
    }
}

/// Gates emitted for Ry(`a`) on `q`.
pub open spec fn ry_ops(gs: GateSet, q: usize, a: Parameter) -> Seq<InstrView> {
    match gs {
        GateSet::CliffordT => seq![op1(StandardGate::Sdg, q), op1(StandardGate::H, q)] + rz_ops(gs, q, a)
            + seq![op1(StandardGate::H, q), op1(StandardGate::S, q)],
        GateSet::Rigetti => seq![
            op1f(StandardGate::Rz, q, NEG_HALF_PI_BITS),
            op1p(StandardGate::Rx, q, a),
            op1f(StandardGate::Rz, q, HALF_PI_BITS),
        ],
        _ => seq![op1p(StandardGate::Ry, q, a)],
    }
}

/// Three CNOTs implementing SWAP.
pub open spec fn swap_ops(q1: usize, q2: usize) -> Seq<InstrView> {
    seq![op2(StandardGate::CX, q1, q2), op2(StandardGate::CX, q2, q1), op2(StandardGate::CX, q1, q2)]
}

/// Gates emitted for iSWAP on `q1`, `q2`.
pub open spec fn iswap_ops(q1: usize, q2: usize) -> Seq<InstrView> {
    seq![
        op1(StandardGate::S, q1),
        op1(StandardGate::S, q2),
        op1(StandardGate::H, q1),
        op2(StandardGate::CX, q1, q2),
        op2(StandardGate::CX, q2, q1),
        op1(StandardGate::H, q2),
    ]
}

/// Gates emitted for CZ with the given control and target.
pub open spec fn cz_ops(gs: GateSet, control: usize, target: usize) -> Seq<InstrView> {
    match gs {
        GateSet::Rigetti => seq![op2(StandardGate::CZ, control, target)],
        _ => seq![
            op1(StandardGate::H, target),
            op2(StandardGate::CX, control, target),
            op1(StandardGate::H, target),
        ],
    }
}

/// The six-CNOT Toffoli decomposition with controls `c1`, `c2`.
pub open spec fn toffoli_ops(c1: usize, c2: usize, t: usize) -> Seq<InstrView> {
    seq![
        op1(StandardGate::H, t),
        op2(StandardGate::CX, c2, t),
        op1(StandardGate::Tdg, t),
        op2(StandardGate::CX, c1, t),
        op1(StandardGate::T, t),
        op2(StandardGate::CX, c2, t),
        op1(StandardGate::Tdg, t),
        op2(StandardGate::CX, c1, t),
        op1(StandardGate::T, c2),
        op1(StandardGate::T, t),
        op1(StandardGate::H, t),
        op2(StandardGate::CX, c1, c2),
        op1(StandardGate::T, c1),
        op1(StandardGate::Tdg, c2),
        op2(StandardGate::CX, c1, c2),
    ]
}

/// Fredkin as CNOT(t2, t1), Toffoli(control, t1, t2), CNOT(t2, t1).
pub open spec fn fredkin_ops(control: usize, t1: usize, t2: usize) -> Seq<InstrView> {
    seq![op2(StandardGate::CX, t2, t1)] + toffoli_ops(control, t1, t2) + seq![op2(StandardGate::CX, t2, t1)]
}

fn g1(g: StandardGate, q: usize) -> (r: Instruction)
    ensures
        r@ == op1(g, q),
{
    Instruction::single(g, q)
}

fn g2(g: StandardGate, a: usize, b: usize) -> (r: Instruction)
    ensures
        r@ == op2(g, a, b),
{
    Instruction::pair(g, a, b)
}

fn gf(g: StandardGate, q: usize, bits: u64) -> (r: Instruction)
    ensures
        r@ == op1f(g, q, bits),
{
    Instruction::rotation(g, q, Parameter::Float(bits))
}

/// The Toffoli gate sequence as instructions.
pub(crate) fn toffoli_instructions(c1: usize, c2: usize, t: usize) -> (r: Vec<Instruction>)
    ensures
        views(r@) == toffoli_ops(c1, c2, t),
{
    let r = vec![
        g1(StandardGate::H, t),
        g2(StandardGate::CX, c2, t),
        g1(StandardGate::Tdg, t),
        g2(StandardGate::CX, c1, t),
        g1(StandardGate::T, t),
        g2(StandardGate::CX, c2, t),
        g1(StandardGate::Tdg, t),
        g2(StandardGate::CX, c1, t),
        g1(StandardGate::T, c2),
        g1(StandardGate::T, t),
        g1(StandardGate::H, t),
        g2(StandardGate::CX, c1, c2),
        g1(StandardGate::T, c1),
        g1(StandardGate::Tdg, c2),
        g2(StandardGate::CX, c1, c2),
    ];
    assert(views(r@) =~= toffoli_ops(c1, c2, t));
    r
}

/// Gate decomposer for common quantum gates
pub struct GateDecomposer {
    gate_set: GateSet,
}

impl GateDecomposer {
    /// Create a new gate decomposer
    pub fn new(gate_set: GateSet) -> (r: Self)
        ensures
            r.gate_set() == gate_set,
    {
        GateDecomposer { gate_set }
    }

    /// Target gate set of the decompositions.
    pub closed spec fn target(&self) -> GateSet {
        self.gate_set
    }

    /// Get the current gate set
    #[verifier::when_used_as_spec(target)]
    pub fn gate_set(&self) -> (r: GateSet)
        ensures
            r == self.target(),
    {
        self.gate_set
    }

    /// Change the target gate set
    pub fn set_gate_set(&mut self, gate_set: GateSet)
        ensures
            final(self).target() == gate_set,
    {
        self.gate_set = gate_set;
    }

    /// Decompose Hadamard gate into the current gate set
    pub fn decompose_hadamard(&self, circuit: &mut QuantumCircuit, qubit: usize) -> (r: Result<()>)
        ensures
            emits(old(circuit)@, final(circuit)@, r, hadamard_ops(self.target(), qubit)),
    {
        let ops = match self.gate_set {
            GateSet::CliffordT => vec![g1(StandardGate::H, qubit)],
            GateSet::Universal => vec![
                gf(StandardGate::Rz, qubit, HALF_PI_BITS),
                gf(StandardGate::Rx, qubit, HALF_PI_BITS),
                gf(StandardGate::Rz, qubit, HALF_PI_BITS),
            ],
            GateSet::IBM => vec![gf(StandardGate::Rz, qubit, PI_BITS), gf(StandardGate::Ry, qubit, HALF_PI_BITS)],
            GateSet::Rigetti => vec![
                gf(StandardGate::Rz, qubit, HALF_PI_BITS),
                gf(StandardGate::Rx, qubit, HALF_PI_BITS),
                gf(StandardGate::Rz, qubit, HALF_PI_BITS),
            ],
            GateSet::IonQ => vec![gf(StandardGate::Ry, qubit, HALF_PI_BITS), gf(StandardGate::Rx, qubit, PI_BITS)],
        };
        assert(views(ops@) =~= hadamard_ops(self.target(), qubit));
        circuit.append_all(ops)
    }

    /// Decompose X gate
    pub fn decompose_x(&self, circuit: &mut QuantumCircuit, qubit: usize) -> (r: Result<()>)
        ensures
            emits(old(circuit)@, final(circuit)@, r, x_ops(self.target(), qubit)),
    {
        let ops = match self.gate_set {
            GateSet::CliffordT => vec![
                g1(StandardGate::H, qubit),
                g1(StandardGate::Z, qubit),
                g1(StandardGate::H, qubit),
            ],
            GateSet::IBM => vec![gf(StandardGate::Rz, qubit, PI_BITS), gf(StandardGate::Ry, qubit, PI_BITS)],
            _ => vec![gf(StandardGate::Rx, qubit, PI_BITS)],
        };
        assert(views(ops@) =~= x_ops(self.target(), qubit));
        circuit.append_all(ops)
    }

    /// Decompose Y gate
    pub fn decompose_y(&self, circuit: &mut QuantumCircuit, qubit: usize) -> (r: Result<()>)
        ensures
            emits(old(circuit)@, final(circuit)@, r, y_ops(self.target(), qubit)),
    {
        let ops = match self.gate_set {
            GateSet::CliffordT => vec![
                g1(StandardGate::S, qubit),
                g1(StandardGate::X, qubit),
                g1(StandardGate::Sdg, qubit),
            ],
            GateSet::IBM => vec![
                gf(StandardGate::Rz, qubit, HALF_PI_BITS),
                gf(StandardGate::Ry, qubit, PI_BITS),
                gf(StandardGate::Rz, qubit, HALF_PI_BITS),
            ],
            GateSet::Rigetti => vec![
                gf(StandardGate::Rz, qubit, HALF_PI_BITS),
                gf(StandardGate::Rx, qubit, PI_BITS),
                gf(StandardGate::Rz, qubit, NEG_HALF_PI_BITS),
            ],
            _ => vec![gf(StandardGate::Ry, qubit, PI_BITS)],
        };
        assert(views(ops@) =~= y_ops(self.target(), qubit));
        circuit.append_all(ops)
    }

    /// Decompose Z gate
    pub fn decompose_z(&self, circuit: &mut QuantumCircuit, qubit: usize) -> (r: Result<()>)
        ensures
            emits(old(circuit)@, final(circuit)@, r, z_ops(self.target(), qubit)),
    {
        let ops = match self.gate_set {
            GateSet::CliffordT => vec![g1(StandardGate::S, qubit), g1(StandardGate::S, qubit)],
            _ => vec![gf(StandardGate::Rz, qubit, PI_BITS)],
        };
        assert(views(ops@) =~= z_ops(self.target(), qubit));
        circuit.append_all(ops)
    }

    /// Decompose S gate (square root of Z)
    pub fn decompose_s(&self, circuit: &mut QuantumCircuit, qubit: usize) -> (r: Result<()>)
        ensures
            emits(old(circuit)@, final(circuit)@, r, s_ops(self.target(), qubit)),
    {
        let ops = match self.gate_set {
            GateSet::CliffordT => vec![g1(StandardGate::S, qubit)],
            _ => vec![gf(StandardGate::Rz, qubit, HALF_PI_BITS)],
        };
        assert(views(ops@) =~= s_ops(self.target(), qubit));
        circuit.append_all(ops)
    }

    /// Decompose T gate (square root of S)
    pub fn decompose_t(&self, circuit: &mut QuantumCircuit, qubit: usize) -> (r: Result<()>)
        ensures
            emits(old(circuit)@, final(circuit)@, r, t_ops(self.target(), qubit)),
    {
        let ops = match self.gate_set {
            GateSet::CliffordT => vec![g1(StandardGate::T, qubit)],
            _ => vec![gf(StandardGate::Rz, qubit, QUARTER_PI_BITS)],
        };
        assert(views(ops@) =~= t_ops(self.target(), qubit));
        circuit.append_all(ops)
    }

    /// Decompose Rx gate
    pub fn decompose_rx(&self, circuit: &mut QuantumCircuit, qubit: usize, angle: Parameter) -> (r: Result<()>)
        ensures
            emits(old(circuit)@, final(circuit)@, r, rx_ops(self.target(), qubit, angle)),
    {
        let ghost a = angle;
        let ops = match self.gate_set {
            GateSet::CliffordT => vec![
                g1(StandardGate::H, qubit),
                Instruction::rotation(StandardGate::Rz, qubit, angle),
                g1(StandardGate::H, qubit),
            ],
            GateSet::IBM => vec![
                gf(StandardGate::Rz, qubit, HALF_PI_BITS),
                Instruction::rotation(StandardGate::Ry, qubit, angle),
                gf(StandardGate::Rz, qubit, NEG_HALF_PI_BITS),
            ],
            _ => vec![Instruction::rotation(StandardGate::Rx, qubit, angle)],
        };
        assert(views(ops@) =~= rx_ops(self.target(), qubit, a));
        circuit.append_all(ops)
    }

    /// Decompose Ry gate
    pub fn decompose_ry(&self, circuit: &mut QuantumCircuit, qubit: usize, angle: Parameter) -> (r: Result<()>)
        ensures
            emits(old(circuit)@, final(circuit)@, r, ry_ops(self.target(), qubit, angle)),
    {
        let ghost a = angle;
        let ops = match self.gate_set {
            GateSet::CliffordT => vec![
                g1(StandardGate::Sdg, qubit),
                g1(StandardGate::H, qubit),
                Instruction::rotation(StandardGate::Rz, qubit, angle),
                g1(StandardGate::H, qubit),
                g1(StandardGate::S, qubit),
            ],
            GateSet::Rigetti => vec![
                gf(StandardGate::Rz, qubit, NEG_HALF_PI_BITS),
                Instruction::rotation(StandardGate::Rx, qubit, angle),
                gf(StandardGate::Rz, qubit, HALF_PI_BITS),
            ],
            _ => vec![Instruction::rotation(StandardGate::Ry, qubit, angle)],
        };
        assert(views(ops@) =~= ry_ops(self.target(), qubit, a));
        circuit.append_all(ops)
    }

    /// Decompose Rz gate
    pub fn decompose_rz(&self, circuit: &mut QuantumCircuit, qubit: usize, angle: Parameter) -> (r: Result<()>)
        ensures
            emits(old(circuit)@, final(circuit)@, r, rz_ops(self.target(), qubit, angle)),
    {
        let ghost a = angle;
        let ops = vec![Instruction::rotation(StandardGate::Rz, qubit, angle)];
        assert(views(ops@) =~= rz_ops(self.target(), qubit, a));
        circuit.append_all(ops)
    }

    /// Decompose SWAP gate into three CNOTs
    pub fn decompose_swap(&self, circuit: &mut QuantumCircuit, q1: usize, q2: usize) -> (r: Result<()>)
        ensures
            emits(old(circuit)@, final(circuit)@, r, swap_ops(q1, q2)),
    {
        let ops = vec![g2(StandardGate::CX, q1, q2), g2(StandardGate::CX, q2, q1), g2(StandardGate::CX, q1, q2)];
        assert(views(ops@) =~= swap_ops(q1, q2));
        circuit.append_all(ops)
    }

    /// Decompose iSWAP gate
    pub fn decompose_iswap(&self, circuit: &mut QuantumCircuit, q1: usize, q2: usize) -> (r: Result<()>)
        ensures
            emits(old(circuit)@, final(circuit)@, r, iswap_ops(q1, q2)),
    {
        let ops = vec![
            g1(StandardGate::S, q1),
            g1(StandardGate::S, q2),
            g1(StandardGate::H, q1),
            g2(StandardGate::CX, q1, q2),
            g2(StandardGate::CX, q2, q1),
            g1(StandardGate::H, q2),
        ];
        assert(views(ops@) =~= iswap_ops(q1, q2));
        circuit.append_all(ops)
    }

    /// Decompose CZ gate
    pub fn decompose_cz(&self, circuit: &mut QuantumCircuit, control: usize, target: usize) -> (r: Result<()>)
        ensures
            emits(old(circuit)@, final(circuit)@, r, cz_ops(self.target(), control, target)),
    {
        let ops = match self.gate_set {
            GateSet::Rigetti => vec![g2(StandardGate::CZ, control, target)],
            _ => vec![
                g1(StandardGate::H, target),
                g2(StandardGate::CX, control, target),
                g1(StandardGate::H, target),
            ],
        };
        assert(views(ops@) =~= cz_ops(self.target(), control, target));
        circuit.append_all(ops)
    }

    /// Decompose Toffoli (CCX) gate using six CNOTs
    pub fn decompose_toffoli(&self, circuit: &mut QuantumCircuit, c1: usize, c2: usize, target: usize) -> (r: Result<()>)
        ensures
            emits(old(circuit)@, final(circuit)@, r, toffoli_ops(c1, c2, target)),
    {
        circuit.append_all(toffoli_instructions(c1, c2, target))
    }

    /// Decompose Fredkin (CSWAP) gate
    pub fn decompose_fredkin(&self, circuit: &mut QuantumCircuit, control: usize, t1: usize, t2: usize) -> (r: Result<()>)
        ensures
            emits(old(circuit)@, final(circuit)@, r, fredkin_ops(control, t1, t2)),
    {
        let mut ops = vec![g2(StandardGate::CX, t2, t1)];
        let mut middle = toffoli_instructions(control, t1, t2);
        ops.append(&mut middle);
        ops.push(g2(StandardGate::CX, t2, t1));
        assert(views(ops@) =~= fredkin_ops(control, t1, t2));
        circuit.append_all(ops)
    }
}

/// The three CNOTs of the SWAP decomposition exchange the two qubits: on
/// every basis state they act as SWAP, with no phase.
pub proof fn law_swap_decomposition_swaps(q1: usize, q2: usize, s: Seq<bool>)
    requires
        q1 != q2,
        q1 < s.len(),
        q2 < s.len(),
    ensures
        sequence_action(swap_ops(q1, q2), s)
            == Some((s.update(q1 as int, s[q2 as int]).update(q2 as int, s[q1 as int]), 0int)),
{
    let ops = swap_ops(q1, q2);
    let (a, b) = (q1 as int, q2 as int);
    lemma_sequence_cons(ops, s);
    let s1 = if s[a] { s.update(b, !s[b]) } else { s };
    assert(basis_action(ops[0], s) == Some((s1, 0int)));
    lemma_sequence_cons(ops.drop_first(), s1);
    let s2 = if s1[b] { s1.update(a, !s1[a]) } else { s1 };
    assert(basis_action(ops.drop_first()[0], s1) == Some((s2, 0int)));
    let last = ops.drop_first().drop_first();
    lemma_sequence_cons(last, s2);
    let s3 = if s2[a] { s2.update(b, !s2[b]) } else { s2 };
    assert(basis_action(last[0], s2) == Some((s3, 0int)));
    assert(last.drop_first() =~= Seq::<InstrView>::empty());
    assert(s3 =~= s.update(a, s[b]).update(b, s[a]));
}

/// The Clifford+T decompositions of Z and Y are those gates: S twice acts
/// as Z on every basis state, phase included, and S, X, S-dagger acts as Y
/// up to the global phase -1 (four eighths of a turn on every state).
pub proof fn law_clifford_t_pauli_decompositions(q: usize, s: Seq<bool>)
    requires
        q < s.len(),
    ensures
        sequence_action(z_ops(GateSet::CliffordT, q), s) == one_qubit_action(StandardGate::Z, q as int, s),
        sequence_action(y_ops(GateSet::CliffordT, q), s) matches Some(x)
            && one_qubit_action(StandardGate::Y, q as int, s) matches Some(y)
            && x.0 == y.0 && (x.1 - y.1) % 8 == 4,
{
    let a = q as int;
    let z = z_ops(GateSet::CliffordT, q);
    lemma_sequence_cons(z, s);
    lemma_sequence_cons(z.drop_first(), s);
    assert(z.drop_first().drop_first() =~= Seq::<InstrView>::empty());
    let y = y_ops(GateSet::CliffordT, q);
    lemma_sequence_cons(y, s);
    let p1: int = if s[a] { 2 } else { 0 };
    assert(basis_action(y[0], s) == Some((s, p1)));
    let t = s.update(a, !s[a]);
    lemma_sequence_cons(y.drop_first(), s);
    assert(basis_action(y.drop_first()[0], s) == Some((t, 0int)));
    let last = y.drop_first().drop_first();
    lemma_sequence_cons(last, t);
    let p3: int = if t[a] { 6 } else { 0 };
    assert(basis_action(last[0], t) == Some((t, p3)));
    assert(last.drop_first() =~= Seq::<InstrView>::empty());
}

} // verus!
