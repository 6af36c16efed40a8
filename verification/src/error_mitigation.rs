//! Error mitigation: the vocabulary of mitigation techniques, and unitary
//! folding, the circuit transformation behind zero-noise extrapolation.
//!
//! Folding scales the noise of a circuit without changing what it computes:
//! every gate `G` is followed by `k` rounds of `G` and its inverse, so each
//! gate is applied `2k + 1` times.

use vstd::prelude::*;
use crate::circuit::{
    all_distinct, all_valid, append_tracked, first_out_of_range, lemma_fault_stops, lemma_in_range,
    lemma_run_valid, lemma_valid_one, lemma_valid_two, op1, op1p, op2, op_fault, reports, run, views,
    CircuitView, Fault, InstrView, Instruction, QuantumCircuit,
};
use crate::basis_action::{basis_action, lemma_action_keeps_length, lemma_sequence_concat, lemma_sequence_single, sequence_action};
use crate::error::Result;
use crate::gate_inverse::inverse_kind;
use crate::gates::{Parameter, StandardGate, SIGN_BIT};

verus! {

/// Methods for extrapolating to zero noise
#[derive(Debug, Clone, Copy, PartialEq, Eq)]
pub enum ExtrapolationMethod {
    /// Linear extrapolation
    Linear,
    /// Exponential extrapolation
    Exponential,
    /// Polynomial extrapolation of the given degree
    Polynomial(usize),
    /// Richardson extrapolation
    Richardson,
}

/// Single Pauli operator
#[derive(Debug, Clone, Copy, PartialEq, Eq, Structural)]
pub enum PauliOperator {
    /// Identity
    I,
    /// Pauli-X
    X,
    /// Pauli-Y
    Y,
    /// Pauli-Z
    Z,
}

/// Additional mitigation techniques
#[derive(Debug, Clone, Copy, PartialEq, Eq, Structural)]
pub enum MitigationTechnique {
    /// Readout error mitigation
    ReadoutErrorMitigation,
    /// Dynamical decoupling
    DynamicalDecoupling,
    /// Virtual Z gates (software phase tracking)
    VirtualZGates,
    /// Clifford data regression
    CliffordDataRegression,
}

/// The kind is a rotation about one of the three axes.
pub open spec fn is_axis_rotation(g: StandardGate) -> bool {
    g == StandardGate::Rx || g == StandardGate::Ry || g == StandardGate::Rz
}

/// How many qubit arguments folding reads from an instruction.
pub open spec fn fold_arity(o: InstrView) -> nat {
    match o.gate {
        StandardGate::CX | StandardGate::CZ => 2,
        StandardGate::Rx | StandardGate::Ry | StandardGate::Rz => if o.params.len() > 0 { 1 } else { 0 },
        _ => 1,
    }
}

/// What folding adds to repeat `o`: the same gate for the Pauli, Hadamard,
/// S, T, CNOT and CZ kinds and for an axis rotation with its first angle;
/// nothing for an axis rotation without an angle; an identity on the first
/// qubit for every other kind.
pub open spec fn forward_ops(o: InstrView) -> Seq<InstrView> {
    match o.gate {
        StandardGate::X | StandardGate::Y | StandardGate::Z | StandardGate::H | StandardGate::S
        | StandardGate::T => seq![op1(o.gate, o.qubits[0])],
        StandardGate::CX | StandardGate::CZ => seq![op2(o.gate, o.qubits[0], o.qubits[1])],
        StandardGate::Rx | StandardGate::Ry | StandardGate::Rz => if o.params.len() > 0 {
            seq![op1p(o.gate, o.qubits[0], o.params[0])]
        } else {
            Seq::empty()
        },
        _ => seq![op1(StandardGate::I, o.qubits[0])],
    }
}

/// Angle of the rotation that undoes one by `p`: a number with its sign
/// flipped; a symbolic angle is replaced by zero.
pub open spec fn undo_angle(p: Parameter) -> Parameter {
    match p {
        Parameter::Float(b) => Parameter::Float(b ^ SIGN_BIT),
        _ => Parameter::Float(0),
    }
}

/// What folding adds to undo `o`: the same kind for the self-inverse
/// kinds, S-dagger for S, T-dagger for T, the rotation by the undone angle,
/// and an identity on the first qubit for every other kind.
pub open spec fn backward_ops(o: InstrView) -> Seq<InstrView> {
    match o.gate {
        StandardGate::X | StandardGate::Y | StandardGate::Z | StandardGate::H => seq![op1(o.gate, o.qubits[0])],
        StandardGate::S => seq![op1(StandardGate::Sdg, o.qubits[0])],
        StandardGate::T => seq![op1(StandardGate::Tdg, o.qubits[0])],
        StandardGate::CX | StandardGate::CZ => seq![op2(o.gate, o.qubits[0], o.qubits[1])],
        StandardGate::Rx | StandardGate::Ry | StandardGate::Rz => if o.params.len() > 0 {
            seq![op1p(o.gate, o.qubits[0], undo_angle(o.params[0]))]
        } else {
            Seq::empty()
        },
        _ => seq![op1(StandardGate::I, o.qubits[0])],
    }
}

/// `k` rounds of repeating `o` and undoing it.
pub open spec fn fold_rounds(o: InstrView, k: nat) -> Seq<InstrView>
    decreases k,
{
    if k == 0 {
        Seq::empty()
    } else {
        fold_rounds(o, (k - 1) as nat) + forward_ops(o) + backward_ops(o)
    }
}

/// Everything folding adds for one instruction.
pub open spec fn folded_op(o: InstrView, k: nat) -> Seq<InstrView> {
    forward_ops(o) + fold_rounds(o, k)
}

/// Everything folding adds for a sequence of instructions, in order.
pub open spec fn folded_ops(ops: Seq<InstrView>, k: nat) -> Seq<InstrView>
    decreases ops.len(),
{
    if ops.len() == 0 {
        Seq::empty()
    } else {
        folded_ops(ops.drop_last(), k) + folded_op(ops.last(), k)
    }
}

/// Folding a circuit: its instructions, folded with `k` rounds, added to an
/// empty circuit of the same widths.
pub open spec fn fold_outcome(c: CircuitView, k: nat) -> (CircuitView, Option<Fault>) {
    run(
        CircuitView { num_qubits: c.num_qubits, num_clbits: c.num_clbits, ops: Seq::empty() },
        folded_ops(c.ops, k),
    )
}

/// Folding distributes over concatenation.
proof fn lemma_folded_concat(a: Seq<InstrView>, b: Seq<InstrView>, k: nat)
    ensures
        folded_ops(a + b, k) == folded_ops(a, k) + folded_ops(b, k),
    decreases b.len(),
{
    if b.len() == 0 {
        assert(a + b =~= a);
        assert(folded_ops(a, k) + folded_ops(b, k) =~= folded_ops(a, k));
    } else {
        assert((a + b).drop_last() =~= a + b.drop_last());
        assert((a + b).last() == b.last());
        lemma_folded_concat(a, b.drop_last(), k);
        assert(folded_ops(a + b, k) =~= folded_ops(a, k) + folded_ops(b, k));
    }
}

/// Rounds add up.
proof fn lemma_rounds_concat(o: InstrView, j: nat, m: nat)
    ensures
        fold_rounds(o, j + m) == fold_rounds(o, j) + fold_rounds(o, m),
    decreases m,
{
    if m == 0 {
        assert(fold_rounds(o, j) + fold_rounds(o, 0) =~= fold_rounds(o, j));
    } else {
        lemma_rounds_concat(o, j, (m - 1) as nat);
        assert(fold_rounds(o, j + m) == fold_rounds(o, (j + m - 1) as nat) + forward_ops(o) + backward_ops(o));
        assert(fold_rounds(o, j + m) =~= fold_rounds(o, j) + fold_rounds(o, m));
    }
}

/// Where the additions for instruction `i`, after `j` of its rounds, stand
/// within the folding of the whole sequence.
#[verifier::rlimit(40)]
proof fn lemma_fold_layout(ops: Seq<InstrView>, k: nat, i: int, j: nat)
    requires
        0 <= i < ops.len(),
        j <= k,
    ensures
        folded_ops(ops, k) == folded_ops(ops.take(i), k) + forward_ops(ops[i]) + fold_rounds(ops[i], j)
            + fold_rounds(ops[i], (k - j) as nat) + folded_ops(ops.skip(i + 1), k),
        folded_ops(ops.take(i + 1), k) == folded_ops(ops.take(i), k) + forward_ops(ops[i]) + fold_rounds(ops[i], k),
{
    let o = ops[i];
    assert(ops =~= ops.take(i + 1) + ops.skip(i + 1));
    lemma_folded_concat(ops.take(i + 1), ops.skip(i + 1), k);
    assert(ops.take(i + 1).drop_last() =~= ops.take(i));
    assert(ops.take(i + 1).last() == o);
    lemma_rounds_concat(o, j, (k - j) as nat);
    assert(folded_ops(ops, k) =~= folded_ops(ops.take(i), k) + forward_ops(o) + fold_rounds(o, j)
        + fold_rounds(o, (k - j) as nat) + folded_ops(ops.skip(i + 1), k));
    assert(folded_ops(ops.take(i + 1), k) =~= folded_ops(ops.take(i), k) + forward_ops(o) + fold_rounds(o, k));
}

/// A round is the instruction repeated, then undone.
proof fn lemma_one_round(o: InstrView, m: nat)
    requires
        m >= 1,
    ensures
        fold_rounds(o, m) == forward_ops(o) + backward_ops(o) + fold_rounds(o, (m - 1) as nat),
{
    lemma_rounds_concat(o, 1, (m - 1) as nat);
    assert(fold_rounds(o, 1) == fold_rounds(o, 0) + forward_ops(o) + backward_ops(o));
    assert(fold_rounds(o, 1) =~= forward_ops(o) + backward_ops(o));
    assert((1 + (m - 1)) as nat == m);
}

/// Concatenating accepted instructions gives accepted instructions.
proof fn lemma_valid_concat(nq: usize, nc: usize, a: Seq<InstrView>, b: Seq<InstrView>)
    requires
        all_valid(nq, nc, a),
        all_valid(nq, nc, b),
    ensures
        all_valid(nq, nc, a + b),
{
    assert forall|i: int| 0 <= i < (a + b).len() implies op_fault(nq, nc, #[trigger] (a + b)[i]) is None by {
        if i < a.len() {
            assert((a + b)[i] == a[i]);
        } else {
            assert((a + b)[i] == b[i - a.len()]);
        }
    }
}

/// The repeating and undoing additions for an accepted instruction are accepted.
proof fn lemma_block_valid(nq: usize, nc: usize, o: InstrView)
    requires
        op_fault(nq, nc, o) is None,
        fold_arity(o) <= o.qubits.len(),
    ensures
        all_valid(nq, nc, forward_ops(o)),
        all_valid(nq, nc, backward_ops(o)),
{
    assert(first_out_of_range(o.qubits, nq) is None);
    assert(all_distinct(o.qubits));
    lemma_in_range(o.qubits, nq);
    if o.qubits.len() >= 1 {
        let q = o.qubits[0];
        assert(q < nq);
        lemma_valid_one(nq, nc, o.gate, q, Seq::empty());
        lemma_valid_one(nq, nc, StandardGate::I, q, Seq::empty());
        lemma_valid_one(nq, nc, StandardGate::Sdg, q, Seq::empty());
        lemma_valid_one(nq, nc, StandardGate::Tdg, q, Seq::empty());
        if o.params.len() > 0 {
            lemma_valid_one(nq, nc, o.gate, q, seq![o.params[0]]);
            lemma_valid_one(nq, nc, o.gate, q, seq![undo_angle(o.params[0])]);
        }
        if o.qubits.len() >= 2 {
            assert(o.qubits[1] < nq);
            assert(o.qubits[0] != o.qubits[1]);
            lemma_valid_two(nq, nc, o.gate, o.qubits[0], o.qubits[1], Seq::empty());
        }
    }
}

/// The rounds for an accepted instruction are accepted.
proof fn lemma_rounds_valid(nq: usize, nc: usize, o: InstrView, k: nat)
    requires
        op_fault(nq, nc, o) is None,
        fold_arity(o) <= o.qubits.len(),
    ensures
        all_valid(nq, nc, fold_rounds(o, k)),
    decreases k,
{
    lemma_block_valid(nq, nc, o);
    if k > 0 {
        lemma_rounds_valid(nq, nc, o, (k - 1) as nat);
        lemma_valid_concat(nq, nc, fold_rounds(o, (k - 1) as nat), forward_ops(o));
        lemma_valid_concat(nq, nc, fold_rounds(o, (k - 1) as nat) + forward_ops(o), backward_ops(o));
    }
}

/// Folding accepted instructions gives accepted instructions.
proof fn lemma_folded_valid(nq: usize, nc: usize, ops: Seq<InstrView>, k: nat)
    requires
        all_valid(nq, nc, ops),
        forall|i: int| 0 <= i < ops.len() ==> fold_arity(#[trigger] ops[i]) <= ops[i].qubits.len(),
    ensures
        all_valid(nq, nc, folded_ops(ops, k)),
    decreases ops.len(),
{
    if ops.len() > 0 {
        let o = ops.last();
        assert(op_fault(nq, nc, ops[ops.len() - 1]) is None);
        assert(fold_arity(ops[ops.len() - 1]) <= ops[ops.len() - 1].qubits.len());
        assert forall|i: int| 0 <= i < ops.drop_last().len() implies op_fault(nq, nc, #[trigger] ops.drop_last()[i]) is None by {
            assert(ops.drop_last()[i] == ops[i]);
        }
        assert forall|i: int| 0 <= i < ops.drop_last().len() implies fold_arity(#[trigger] ops.drop_last()[i])
            <= ops.drop_last()[i].qubits.len() by {
            assert(ops.drop_last()[i] == ops[i]);
        }
        lemma_folded_valid(nq, nc, ops.drop_last(), k);
        lemma_block_valid(nq, nc, o);
        lemma_rounds_valid(nq, nc, o, k);
        lemma_valid_concat(nq, nc, forward_ops(o), fold_rounds(o, k));
        lemma_valid_concat(nq, nc, folded_ops(ops.drop_last(), k), folded_op(o, k));
    }
}

/// Add to `circuit` a repetition of `ins`.
fn add_repeat(
    circuit: &mut QuantumCircuit,
    ins: &Instruction,
    Ghost(init): Ghost<CircuitView>,
    Ghost(prefix): Ghost<Seq<InstrView>>,
) -> (r: Result<()>)
    requires
        old(circuit)@ == run(init, prefix).0,
        run(init, prefix).1 is None,
        fold_arity(ins@) <= ins@.qubits.len(),
    ensures
        final(circuit)@ == run(init, prefix + forward_ops(ins@)).0,
        reports(r, run(init, prefix + forward_ops(ins@)).1, init.num_qubits, init.num_clbits),
{
    let g = ins.gate.gate_type;
    let ghost o = ins@;
    match g {
        StandardGate::X | StandardGate::Y | StandardGate::Z | StandardGate::H | StandardGate::S
        | StandardGate::T => {
            assert(prefix + forward_ops(o) =~= prefix.push(op1(g, o.qubits[0])));
            append_tracked(circuit, Instruction::single(g, ins.qubits[0]), Ghost(init), Ghost(prefix))
        },
        StandardGate::CX | StandardGate::CZ => {
            assert(prefix + forward_ops(o) =~= prefix.push(op2(g, o.qubits[0], o.qubits[1])));
            append_tracked(circuit, Instruction::pair(g, ins.qubits[0], ins.qubits[1]), Ghost(init), Ghost(prefix))
        },
        StandardGate::Rx | StandardGate::Ry | StandardGate::Rz => {
            if ins.gate.parameters.len() > 0 {
                let angle = ins.gate.parameters[0].duplicate();
                assert(prefix + forward_ops(o) =~= prefix.push(op1p(g, o.qubits[0], o.params[0])));
                append_tracked(circuit, Instruction::rotation(g, ins.qubits[0], angle), Ghost(init), Ghost(prefix))
            } else {
                assert(prefix + forward_ops(o) =~= prefix);
                Ok(())
            }
        },
        _ => {
            assert(prefix + forward_ops(o) =~= prefix.push(op1(StandardGate::I, o.qubits[0])));
            append_tracked(circuit, Instruction::single(StandardGate::I, ins.qubits[0]), Ghost(init), Ghost(prefix))
        },
    }
}

/// Add to `circuit` an undoing of `ins`.
fn add_undo(
    circuit: &mut QuantumCircuit,
    ins: &Instruction,
    Ghost(init): Ghost<CircuitView>,
    Ghost(prefix): Ghost<Seq<InstrView>>,
) -> (r: Result<()>)
    requires
        old(circuit)@ == run(init, prefix).0,
        run(init, prefix).1 is None,
        fold_arity(ins@) <= ins@.qubits.len(),
    ensures
        final(circuit)@ == run(init, prefix + backward_ops(ins@)).0,
        reports(r, run(init, prefix + backward_ops(ins@)).1, init.num_qubits, init.num_clbits),
{
    let g = ins.gate.gate_type;
    let ghost o = ins@;
    match g {
        StandardGate::X | StandardGate::Y | StandardGate::Z | StandardGate::H => {
            assert(prefix + backward_ops(o) =~= prefix.push(op1(g, o.qubits[0])));
            append_tracked(circuit, Instruction::single(g, ins.qubits[0]), Ghost(init), Ghost(prefix))
        },
        StandardGate::S => {
            assert(prefix + backward_ops(o) =~= prefix.push(op1(StandardGate::Sdg, o.qubits[0])));
            append_tracked(circuit, Instruction::single(StandardGate::Sdg, ins.qubits[0]), Ghost(init), Ghost(prefix))
        },
        StandardGate::T => {
            assert(prefix + backward_ops(o) =~= prefix.push(op1(StandardGate::Tdg, o.qubits[0])));
            append_tracked(circuit, Instruction::single(StandardGate::Tdg, ins.qubits[0]), Ghost(init), Ghost(prefix))
        },
        StandardGate::CX | StandardGate::CZ => {
            assert(prefix + backward_ops(o) =~= prefix.push(op2(g, o.qubits[0], o.qubits[1])));
            append_tracked(circuit, Instruction::pair(g, ins.qubits[0], ins.qubits[1]), Ghost(init), Ghost(prefix))
        },
        StandardGate::Rx | StandardGate::Ry | StandardGate::Rz => {
            if ins.gate.parameters.len() > 0 {
                let angle = match &ins.gate.parameters[0] {
                    Parameter::Float(b) => Parameter::Float(*b ^ SIGN_BIT),
                    _ => Parameter::Float(0),
                };
                assert(angle == undo_angle(o.params[0]));
                assert(prefix + backward_ops(o) =~= prefix.push(op1p(g, o.qubits[0], angle)));
                append_tracked(circuit, Instruction::rotation(g, ins.qubits[0], angle), Ghost(init), Ghost(prefix))
            } else {
                assert(prefix + backward_ops(o) =~= prefix);
                Ok(())
            }
        },
        _ => {
            assert(prefix + backward_ops(o) =~= prefix.push(op1(StandardGate::I, o.qubits[0])));
            append_tracked(circuit, Instruction::single(StandardGate::I, ins.qubits[0]), Ghost(init), Ghost(prefix))
        },
    }
}

/// Fold a circuit for zero-noise extrapolation: into an empty circuit of the
/// same widths, add for each instruction its repetition and then
/// `repetitions` rounds of the repetition followed by its undoing. Stops at
/// the first gate that the new circuit rejects.
pub fn fold_circuit(circuit: &QuantumCircuit, repetitions: usize) -> (r: Result<QuantumCircuit>)
    requires
        forall|i: int| 0 <= i < circuit@.ops.len()
            ==> fold_arity(#[trigger] circuit@.ops[i]) <= circuit@.ops[i].qubits.len(),
    ensures
        match r {
            Ok(c) => {
                &&& fold_outcome(circuit@, repetitions as nat).1 is None
                &&& c@ == fold_outcome(circuit@, repetitions as nat).0
            },
            Err(e) => {
                &&& fold_outcome(circuit@, repetitions as nat).1 is Some
                &&& reports(Err(e), fold_outcome(circuit@, repetitions as nat).1, circuit@.num_qubits,
                    circuit@.num_clbits)
            },
        },
        all_valid(circuit@.num_qubits, circuit@.num_clbits, circuit@.ops) ==> r is Ok,
{
    let mut out = QuantumCircuit::new(circuit.num_qubits(), circuit.num_clbits());
    let ghost init = out@;
    let ghost ops = circuit@.ops;
    let ghost k = repetitions as nat;
    let ghost total = folded_ops(ops, k);
    proof {
        if all_valid(circuit@.num_qubits, circuit@.num_clbits, ops) {
            lemma_folded_valid(circuit@.num_qubits, circuit@.num_clbits, ops, k);
            lemma_run_valid(init, total);
        }
        assert(ops.take(0) =~= Seq::<InstrView>::empty());
    }
    let instrs = circuit.instructions();
    let ghost mut done: Seq<InstrView> = Seq::empty();
    let mut i: usize = 0;
    while i < instrs.len()
        invariant
            i <= instrs.len(),
            views(instrs@) == ops,
            ops == circuit@.ops,
            k == repetitions as nat,
            total == folded_ops(ops, k),
            forall|m: int| 0 <= m < ops.len() ==> fold_arity(#[trigger] ops[m]) <= ops[m].qubits.len(),
            init == (CircuitView { num_qubits: circuit@.num_qubits, num_clbits: circuit@.num_clbits, ops: Seq::empty() }),
            done == folded_ops(ops.take(i as int), k),
            out@ == run(init, done).0,
            run(init, done).1 is None,
            all_valid(circuit@.num_qubits, circuit@.num_clbits, ops) ==> run(init, total).1 is None,
        decreases instrs.len() - i,
    {
        let ins = &instrs[i];
        let ghost o = ops[i as int];
        proof {
            assert(o == ins@);
            assert(fold_arity(ops[i as int]) <= ops[i as int].qubits.len());
            lemma_fold_layout(ops, k, i as int, 0);
            assert(fold_rounds(o, 0) =~= Seq::<InstrView>::empty());
        }
        let r = add_repeat(&mut out, ins, Ghost(init), Ghost(done));
        match r {
            Err(e) => {
                proof {
                    let head = done + forward_ops(o);
                    assert(total =~= head + (fold_rounds(o, k) + folded_ops(ops.skip(i + 1), k)));
                    lemma_fault_stops(init, head, fold_rounds(o, k) + folded_ops(ops.skip(i + 1), k));
                }
                return Err(e);
            },
            Ok(()) => {},
        }
        let ghost mut step = done + forward_ops(o);
        proof {
            assert(step =~= done + forward_ops(o) + fold_rounds(o, 0));
        }
        let mut j: usize = 0;
        while j < repetitions
            invariant
                j <= repetitions,
                i < instrs.len(),
                views(instrs@) == ops,
                k == repetitions as nat,
                total == folded_ops(ops, k),
                o == ops[i as int],
                o == ins@,
                fold_arity(o) <= o.qubits.len(),
                done == folded_ops(ops.take(i as int), k),
                step == done + forward_ops(o) + fold_rounds(o, j as nat),
                out@ == run(init, step).0,
                run(init, step).1 is None,
                ops == circuit@.ops,
                init == (CircuitView { num_qubits: circuit@.num_qubits, num_clbits: circuit@.num_clbits, ops: Seq::empty() }),
                all_valid(circuit@.num_qubits, circuit@.num_clbits, ops) ==> run(init, total).1 is None,
            decreases repetitions - j,
        {
            let ghost rest = fold_rounds(o, (k - j - 1) as nat) + folded_ops(ops.skip(i + 1), k);
            proof {
                lemma_fold_layout(ops, k, i as int, j as nat);
                lemma_one_round(o, (k - j) as nat);
                assert(total =~= step + forward_ops(o) + backward_ops(o) + rest);
            }
            let r = add_repeat(&mut out, ins, Ghost(init), Ghost(step));
            match r {
                Err(e) => {
                    proof {
                        assert(total =~= (step + forward_ops(o)) + (backward_ops(o) + rest));
                        lemma_fault_stops(init, step + forward_ops(o), backward_ops(o) + rest);
                    }
                    return Err(e);
                },
                Ok(()) => {},
            }
            let r = add_undo(&mut out, ins, Ghost(init), Ghost(step + forward_ops(o)));
            match r {
                Err(e) => {
                    proof {
                        lemma_fault_stops(init, step + forward_ops(o) + backward_ops(o), rest);
                    }
                    return Err(e);
                },
                Ok(()) => {},
            }
            proof {
                assert(fold_rounds(o, (j + 1) as nat) == fold_rounds(o, j as nat) + forward_ops(o) + backward_ops(o));
                step = step + forward_ops(o) + backward_ops(o);
                assert(step =~= done + forward_ops(o) + fold_rounds(o, (j + 1) as nat));
            }
            j = j + 1;
        }
        proof {
            lemma_fold_layout(ops, k, i as int, 0);
            done = step;
        }
        i = i + 1;
    }
    proof {
        assert(ops.take(i as int) =~= ops);
    }
    Ok(out)
}

/// Unitary folding applies each gate `2k + 1` times: where every axis
/// rotation carries its angle, folding `ops` with `k` rounds gives
/// `ops.len() * (2k + 1)` gates.
pub proof fn law_fold_length(ops: Seq<InstrView>, k: nat)
    requires
        forall|i: int| 0 <= i < ops.len() && is_axis_rotation(#[trigger] ops[i].gate) ==> ops[i].params.len() > 0,
    ensures
        folded_ops(ops, k).len() == ops.len() * (2 * k + 1),
    decreases ops.len(),
{
    if ops.len() > 0 {
        let o = ops.last();
        assert(is_axis_rotation(ops[ops.len() - 1].gate) ==> ops[ops.len() - 1].params.len() > 0);
        assert forall|i: int| 0 <= i < ops.drop_last().len() && is_axis_rotation(#[trigger] ops.drop_last()[i].gate)
            implies ops.drop_last()[i].params.len() > 0 by {
            assert(ops.drop_last()[i] == ops[i]);
        }
        law_fold_length(ops.drop_last(), k);
        lemma_rounds_length(o, k);
        let n = ops.len() - 1;
        assert(n * (2 * k + 1) + (2 * k + 1) == (n + 1) * (2 * k + 1)) by (nonlinear_arith);
    }
}

/// Each round adds two gates for an instruction that folding supports fully.
proof fn lemma_rounds_length(o: InstrView, k: nat)
    requires
        is_axis_rotation(o.gate) ==> o.params.len() > 0,
    ensures
        forward_ops(o).len() == 1,
        backward_ops(o).len() == 1,
        fold_rounds(o, k).len() == 2 * k,
    decreases k,
{
    if k > 0 {
        lemma_rounds_length(o, (k - 1) as nat);
    }
}

/// Gate kinds whose repetition and undoing folding writes out in full and
/// that send basis states to basis states.
pub open spec fn folds_on_basis(g: StandardGate) -> bool {
    g == StandardGate::X || g == StandardGate::Y || g == StandardGate::Z || g == StandardGate::S
        || g == StandardGate::T || g == StandardGate::CX || g == StandardGate::CZ
}

/// The qubits that folding reads from `o` lie in a state of `n` qubits, and
/// a two-qubit gate has two different ones.
pub open spec fn fold_qubits_in(o: InstrView, n: nat) -> bool {
    &&& o.qubits.len() >= fold_arity(o)
    &&& forall|i: int| 0 <= i < fold_arity(o) ==> (#[trigger] o.qubits[i]) < n
    &&& fold_arity(o) == 2 ==> o.qubits[0] != o.qubits[1]
}

/// Folding undoes what it repeats: for a Pauli, S, T, CNOT or CZ gate, the
/// gate followed by what folding adds to undo it leaves every basis state as
/// it was, up to no phase at all (a whole number of turns).
pub proof fn law_fold_round_undoes(o: InstrView, s: Seq<bool>)
    requires
        folds_on_basis(o.gate),
        fold_qubits_in(o, s.len()),
    ensures
        sequence_action(forward_ops(o) + backward_ops(o), s) matches Some(x) && x.0 == s && x.1 % 8 == 0,
{
    let f = forward_ops(o)[0];
    let b = backward_ops(o)[0];
    assert(forward_ops(o) =~= seq![f]);
    assert(backward_ops(o) =~= seq![b]);
    assert(o.qubits[0] < s.len());
    lemma_sequence_concat(seq![f], seq![b], s);
    lemma_sequence_single(f, s);
    let q = o.qubits[0] as int;
    match basis_action(f, s) {
        Some(x) => {
            lemma_sequence_single(b, x.0);
            if o.gate == StandardGate::X || o.gate == StandardGate::Y
                || (o.gate == StandardGate::CX && s[q]) {
                let p = if o.gate == StandardGate::X || o.gate == StandardGate::Y { q } else { o.qubits[1] as int };
                assert(x.0.update(p, !x.0[p]) =~= s);
            }
        },
        None => {},
    }
}

/// Rounds of repeating and undoing a Pauli, S, T, CNOT or CZ gate leave
/// every basis state as it was, up to a whole number of turns.
proof fn lemma_rounds_undo(o: InstrView, k: nat, s: Seq<bool>)
    requires
        folds_on_basis(o.gate),
        fold_qubits_in(o, s.len()),
    ensures
        sequence_action(fold_rounds(o, k), s) matches Some(x) && x.0 == s && x.1 % 8 == 0,
    decreases k,
{
    if k == 0 {
        assert(fold_rounds(o, 0) =~= Seq::<InstrView>::empty());
    } else {
        let r = fold_rounds(o, (k - 1) as nat);
        assert(fold_rounds(o, k) =~= r + (forward_ops(o) + backward_ops(o)));
        lemma_sequence_concat(r, forward_ops(o) + backward_ops(o), s);
        lemma_rounds_undo(o, (k - 1) as nat, s);
        law_fold_round_undoes(o, s);
        let x = sequence_action(r, s)->Some_0;
        let y = sequence_action(forward_ops(o) + backward_ops(o), s)->Some_0;
        assert((x.1 + y.1) % 8 == 0) by {
            assert(x.1 % 8 == 0 && y.1 % 8 == 0);
        }
    }
}

/// Folding leaves the action of an instruction unchanged: for a Pauli, S,
/// T, CNOT or CZ instruction and any number of rounds, the folded sequence
/// sends every basis state where the single instruction sends that state,
/// with the same phase up to whole turns.
pub proof fn law_fold_keeps_action(o: InstrView, k: nat, s: Seq<bool>)
    requires
        folds_on_basis(o.gate),
        fold_qubits_in(o, s.len()),
    ensures
        sequence_action(forward_ops(o), s) matches Some(y)
            && sequence_action(folded_op(o, k), s) matches Some(x)
            && x.0 == y.0 && (x.1 - y.1) % 8 == 0,
{
    let f = forward_ops(o)[0];
    assert(forward_ops(o) =~= seq![f]);
    lemma_sequence_single(f, s);
    assert(o.qubits[0] < s.len());
    let y = sequence_action(forward_ops(o), s)->Some_0;
    assert(y.0.len() == s.len());
    lemma_sequence_concat(forward_ops(o), fold_rounds(o, k), s);
    lemma_rounds_undo(o, k, y.0);
}

/// Folding undoes an instruction with the inverse kind: for the Pauli,
/// Hadamard, S, T, CNOT and CZ kinds, the undoing instruction is the
/// repeated one with the kind replaced by the inverse kind, on the same
/// qubits; for a self-inverse kind the two are equal.
pub proof fn law_fold_undo_is_inverse(o: InstrView)
    requires
        o.gate == StandardGate::X || o.gate == StandardGate::Y || o.gate == StandardGate::Z
            || o.gate == StandardGate::H || folds_on_basis(o.gate),
    ensures
        inverse_kind(o.gate) matches Some(k) && backward_ops(o) == seq![InstrView { gate: k, ..forward_ops(o)[0] }],
        crate::gate_inverse::self_inverse_kind(o.gate) ==> backward_ops(o) == forward_ops(o),
{
    let k = inverse_kind(o.gate)->Some_0;
    assert(backward_ops(o) =~= seq![InstrView { gate: k, ..forward_ops(o)[0] }]);
    if crate::gate_inverse::self_inverse_kind(o.gate) {
        assert(backward_ops(o) =~= forward_ops(o));
    }
}

/// An instruction that folding writes out in full, on exactly the qubits
/// folding reads from it, within a state of `n` qubits.
pub open spec fn folds_exactly(o: InstrView, n: nat) -> bool {
    &&& folds_on_basis(o.gate)
    &&& o.qubits.len() == fold_arity(o)
    &&& fold_qubits_in(o, n)
}

/// The repetition folding writes for an instruction acts as the
/// instruction itself.
proof fn lemma_forward_acts_as_instruction(o: InstrView, s: Seq<bool>)
    requires
        folds_exactly(o, s.len()),
    ensures
        sequence_action(forward_ops(o), s) == sequence_action(seq![o], s),
{
    let f = forward_ops(o)[0];
    assert(forward_ops(o) =~= seq![f]);
    lemma_sequence_single(f, s);
    lemma_sequence_single(o, s);
    if fold_arity(o) == 1 {
        assert(f.qubits =~= o.qubits);
    } else {
        assert(f.qubits =~= o.qubits);
    }
    assert(basis_action(f, s) == basis_action(o, s));
}

/// Folding leaves what a circuit does unchanged: for a sequence of Pauli,
/// S, T, CNOT and CZ instructions and any number of rounds, the folded
/// sequence sends every basis state where the sequence itself sends it,
/// with the same phase up to whole turns.
pub proof fn law_folded_circuit_keeps_action(ops: Seq<InstrView>, k: nat, s: Seq<bool>)
    requires
        forall|i: int| 0 <= i < ops.len() ==> folds_exactly(#[trigger] ops[i], s.len()),
    ensures
        sequence_action(ops, s) matches Some(y)
            && sequence_action(folded_ops(ops, k), s) matches Some(x)
            && x.0 == y.0 && (x.1 - y.1) % 8 == 0,
    decreases ops.len(),
{
    if ops.len() == 0 {
        assert(folded_ops(ops, k) =~= Seq::<InstrView>::empty());
    } else {
        let init = ops.drop_last();
        let o = ops.last();
        assert forall|i: int| 0 <= i < init.len() implies folds_exactly(#[trigger] init[i], s.len()) by {
            assert(init[i] == ops[i]);
        }
        law_folded_circuit_keeps_action(init, k, s);
        assert(ops =~= init + seq![o]);
        lemma_sequence_concat(init, seq![o], s);
        lemma_sequence_concat(folded_ops(init, k), folded_op(o, k), s);
        let y1 = sequence_action(init, s)->Some_0;
        let x1 = sequence_action(folded_ops(init, k), s)->Some_0;
        lemma_action_keeps_length(init, s);
        let z = y1.0;
        assert(folds_exactly(o, z.len())) by {
            assert(o == ops[ops.len() - 1]);
        }
        law_fold_keeps_action(o, k, z);
        lemma_forward_acts_as_instruction(o, z);
        let a = sequence_action(folded_op(o, k), z)->Some_0;
        let b = sequence_action(seq![o], z)->Some_0;
        assert((x1.1 + a.1 - (y1.1 + b.1)) % 8 == 0) by {
            assert((x1.1 - y1.1) % 8 == 0 && (a.1 - b.1) % 8 == 0);
        }
    }
}

/// Folding undoes an axis rotation by the rotation of the same kind about
/// the negated angle: for Rx, Ry or Rz with a numeric first angle, the
/// undoing instruction is the repeated one with the inverse kind (the same
/// kind) and the angle's sign flipped.
pub proof fn law_fold_undoes_rotations(o: InstrView)
    requires
        is_axis_rotation(o.gate),
        o.params.len() > 0,
        o.params[0] is Float,
    ensures
        inverse_kind(o.gate) == Some(o.gate),
        backward_ops(o) == seq![InstrView {
            params: seq![Parameter::Float(o.params[0]->Float_0 ^ SIGN_BIT)],
            ..forward_ops(o)[0]
        }],
{
    assert(backward_ops(o) =~= seq![InstrView {
        params: seq![Parameter::Float(o.params[0]->Float_0 ^ SIGN_BIT)],
        ..forward_ops(o)[0]
    }]);
}

/// Folding repeats an instruction as it is: for the Pauli, Hadamard, S, T,
/// CNOT and CZ kinds without parameters, and for an axis rotation with one
/// angle, on exactly the qubits folding reads and with no label or
/// classical bits, the repetition is the instruction itself.
pub proof fn law_fold_repeats_instruction(o: InstrView)
    requires
        folds_on_basis(o.gate) || o.gate == StandardGate::H || is_axis_rotation(o.gate),
        if is_axis_rotation(o.gate) { o.params.len() == 1 } else { o.params.len() == 0 },
        o.label is None,
        o.clbits.len() == 0,
        o.qubits.len() == fold_arity(o),
    ensures
        forward_ops(o) == seq![o],
{
    assert(o.clbits =~= Seq::<usize>::empty());
    if fold_arity(o) == 1 {
        assert(o.qubits =~= seq![o.qubits[0]]);
    } else {
        assert(o.qubits =~= seq![o.qubits[0], o.qubits[1]]);
    }
    if is_axis_rotation(o.gate) {
        assert(o.params =~= seq![o.params[0]]);
    } else {
        assert(o.params =~= Seq::<Parameter>::empty());
    }
    assert(forward_ops(o) =~= seq![o]);
}

} // verus!
