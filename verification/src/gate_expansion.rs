//! Expansion of controlled and multi-qubit gates into basic gates.

use vstd::prelude::*;
use crate::basis_action::{basis_action, lemma_sequence_cons, lemma_sequence_single, one_qubit_action, sequence_action};
use crate::circuit::{emits, op1, op1f, op2, views, InstrView, Instruction, QuantumCircuit};
use crate::error::{is_circuit_error, MyQuatError, Result};
use crate::gate_library::{fredkin_ops, swap_ops, toffoli_instructions, toffoli_ops};
use crate::gates::{gate_debug_spec, Parameter, StandardGate, NEG_QUARTER_PI_BITS, QUARTER_PI_BITS};
use crate::text::{concat, decimal, decimal_spec};
use vstd::string::StringExecFns;

verus! {

/// Gate expansion strategy
#[derive(Debug, Clone, Copy, PartialEq, Eq, Structural)]
pub enum ExpansionStrategy {
    /// Expand to CNOT + single-qubit gates
    CNOTBased,
    /// Expand to CZ + single-qubit gates
    CZBased,
    /// Expand to minimal depth
    MinimalDepth,
    /// Expand to minimal gate count
    MinimalGates,
}

/// What an expansion produces: a gate sequence, or the message of the
/// circuit error that refuses the request.
pub enum Expansion {
    Gates(Seq<InstrView>),
    Refused(Seq<char>),
}

/// The CCZ decomposition with controls `c1`, `c2` and target `t`.
pub open spec fn ccz_ops(c1: usize, c2: usize, t: usize) -> Seq<InstrView> {
    seq![
        op2(StandardGate::CX, c2, t),
        op1(StandardGate::Tdg, t),
        op2(StandardGate::CX, c1, t),
        op1(StandardGate::T, t),
        op2(StandardGate::CX, c2, t),
        op1(StandardGate::Tdg, t),
        op2(StandardGate::CX, c1, t),
        op1(StandardGate::T, c2),
        op1(StandardGate::T, t),
        op2(StandardGate::CX, c1, c2),
        op1(StandardGate::T, c1),
        op1(StandardGate::Tdg, c2),
        op2(StandardGate::CX, c1, c2),
    ]
}

/// An uncontrolled gate on `t`.
pub open spec fn single_expansion(t: usize, g: StandardGate) -> Expansion {
    match g {
        StandardGate::X | StandardGate::Y | StandardGate::Z | StandardGate::H | StandardGate::S
        | StandardGate::T => Expansion::Gates(seq![op1(g, t)]),
        _ => Expansion::Refused("Unsupported single-qubit gate: "@ + gate_debug_spec(g)),
    }
}

/// A singly-controlled gate.
pub open spec fn controlled_expansion(c: usize, t: usize, g: StandardGate) -> Expansion {
    match g {
        StandardGate::X => Expansion::Gates(seq![op2(StandardGate::CX, c, t)]),
        StandardGate::Y => Expansion::Gates(seq![op2(StandardGate::CY, c, t)]),
        StandardGate::Z => Expansion::Gates(seq![op2(StandardGate::CZ, c, t)]),
        StandardGate::H => Expansion::Gates(
            seq![
                op1f(StandardGate::Ry, t, QUARTER_PI_BITS),
                op2(StandardGate::CX, c, t),
                op1f(StandardGate::Ry, t, NEG_QUARTER_PI_BITS),
            ],
        ),
        _ => Expansion::Refused("Unsupported controlled gate: "@ + gate_debug_spec(g)),
    }
}

/// A doubly-controlled gate.
pub open spec fn double_controlled_expansion(c1: usize, c2: usize, t: usize, g: StandardGate) -> Expansion {
    match g {
        StandardGate::X => Expansion::Gates(toffoli_ops(c1, c2, t)),
        StandardGate::Z => Expansion::Gates(ccz_ops(c1, c2, t)),
        _ => Expansion::Refused("Unsupported double-controlled gate: "@ + gate_debug_spec(g)),
    }
}

/// Message refusing a gate with `n` controls.
pub open spec fn too_many_controls_message(n: nat) -> Seq<char> {
    "Multi-controlled gate with "@ + decimal_spec(n)
        + " controls not yet implemented. Use explicit gate decomposition for CCX/CCZ (n=2) or decompose manually."@
}

/// Expansion of gate `g` on `t` controlled by every qubit of `controls`.
pub open spec fn multi_controlled_expansion(controls: Seq<usize>, t: usize, g: StandardGate) -> Expansion {
    if controls.len() == 0 {
        single_expansion(t, g)
    } else if controls.len() == 1 {
        controlled_expansion(controls[0], t, g)
    } else if controls.len() == 2 {
        double_controlled_expansion(controls[0], controls[1], t, g)
    } else {
        Expansion::Refused(too_many_controls_message(controls.len()))
    }
}

/// The circuit went from `before` to `after` with result `r` as expansion `e` prescribes.
pub open spec fn expands(before: crate::circuit::CircuitView, after: crate::circuit::CircuitView, r: Result<()>, e: Expansion) -> bool {
    match e {
        Expansion::Gates(ops) => emits(before, after, r, ops),
        Expansion::Refused(msg) => after == before && (r matches Err(err) && is_circuit_error(err, msg)),
    }
}

fn refuse(prefix: &str, g: StandardGate) -> (r: MyQuatError)
    ensures
        is_circuit_error(r, prefix@ + gate_debug_spec(g)),
{
    MyQuatError::CircuitError { message: concat(prefix, g.debug_name()) }
}

/// Universal gate expander
pub struct GateExpander {
    strategy: ExpansionStrategy,
}

impl GateExpander {
    /// Create a new gate expander
    pub fn new(strategy: ExpansionStrategy) -> (r: Self)
        ensures
            r.current() == strategy,
    {
        GateExpander { strategy }
    }

    /// The current expansion strategy.
    pub closed spec fn current(&self) -> ExpansionStrategy {
        self.strategy
    }

    /// Get the current expansion strategy
    pub fn strategy(&self) -> (r: ExpansionStrategy)
        ensures
            r == self.current(),
    {
        self.strategy
    }

    /// Set the expansion strategy
    pub fn set_strategy(&mut self, strategy: ExpansionStrategy)
        ensures
            final(self).current() == strategy,
    {
        self.strategy = strategy;
    }

    /// Expand a multi-controlled gate
    pub fn expand_multi_controlled(
        &self,
        circuit: &mut QuantumCircuit,
        controls: &[usize],
        target: usize,
        gate: StandardGate,
    ) -> (r: Result<()>)
        ensures
            expands(old(circuit)@, final(circuit)@, r, multi_controlled_expansion(controls@, target, gate)),
    {
        let n = controls.len();
        if n == 0 {
            self.apply_single_gate(circuit, target, gate)
        } else if n == 1 {
            self.apply_controlled_gate(circuit, controls[0], target, gate)
        } else if n == 2 {
            self.expand_double_controlled(circuit, controls[0], controls[1], target, gate)
        } else {
            self.expand_n_controlled(circuit, controls, target, gate)
        }
    }

    /// Apply a single-qubit gate
    fn apply_single_gate(&self, circuit: &mut QuantumCircuit, qubit: usize, gate: StandardGate) -> (r: Result<()>)
        ensures
            expands(old(circuit)@, final(circuit)@, r, single_expansion(qubit, gate)),
    {
        match gate {
            StandardGate::X | StandardGate::Y | StandardGate::Z | StandardGate::H | StandardGate::S
            | StandardGate::T => circuit.append(Instruction::single(gate, qubit)),
            _ => Err(refuse("Unsupported single-qubit gate: ", gate)),
        }
    }

    /// Apply a controlled gate
    fn apply_controlled_gate(
        &self,
        circuit: &mut QuantumCircuit,
        control: usize,
        target: usize,
        gate: StandardGate,
    ) -> (r: Result<()>)
        ensures
            expands(old(circuit)@, final(circuit)@, r, controlled_expansion(control, target, gate)),
    {
        match gate {
            StandardGate::X => circuit.append(Instruction::pair(StandardGate::CX, control, target)),
            StandardGate::Y => circuit.append(Instruction::pair(StandardGate::CY, control, target)),
            StandardGate::Z => circuit.append(Instruction::pair(StandardGate::CZ, control, target)),
            StandardGate::H => {
                let ops = vec![
                    Instruction::rotation(StandardGate::Ry, target, Parameter::Float(QUARTER_PI_BITS)),
                    Instruction::pair(StandardGate::CX, control, target),
                    Instruction::rotation(StandardGate::Ry, target, Parameter::Float(NEG_QUARTER_PI_BITS)),
                ];
                assert(views(ops@) =~= seq![
                    op1f(StandardGate::Ry, target, QUARTER_PI_BITS),
                    op2(StandardGate::CX, control, target),
                    op1f(StandardGate::Ry, target, NEG_QUARTER_PI_BITS),
                ]);
                circuit.append_all(ops)
            },
            _ => Err(refuse("Unsupported controlled gate: ", gate)),
        }
    }

    /// Expand double-controlled gate (Toffoli-like)
    fn expand_double_controlled(
        &self,
        circuit: &mut QuantumCircuit,
        c1: usize,
        c2: usize,
        target: usize,
        gate: StandardGate,
    ) -> (r: Result<()>)
        ensures
            expands(old(circuit)@, final(circuit)@, r, double_controlled_expansion(c1, c2, target, gate)),
    {
        match gate {
            StandardGate::X => circuit.append_all(toffoli_instructions(c1, c2, target)),
            StandardGate::Z => {
                let ops = vec![
                    Instruction::pair(StandardGate::CX, c2, target),
                    Instruction::single(StandardGate::Tdg, target),
                    Instruction::pair(StandardGate::CX, c1, target),
                    Instruction::single(StandardGate::T, target),
                    Instruction::pair(StandardGate::CX, c2, target),
                    Instruction::single(StandardGate::Tdg, target),
                    Instruction::pair(StandardGate::CX, c1, target),
                    Instruction::single(StandardGate::T, c2),
                    Instruction::single(StandardGate::T, target),
                    Instruction::pair(StandardGate::CX, c1, c2),
                    Instruction::single(StandardGate::T, c1),
                    Instruction::single(StandardGate::Tdg, c2),
                    Instruction::pair(StandardGate::CX, c1, c2),
                ];
                assert(views(ops@) =~= ccz_ops(c1, c2, target));
                circuit.append_all(ops)
            },
            _ => Err(refuse("Unsupported double-controlled gate: ", gate)),
        }
    }

    /// Refuse a gate with more than two controls
    fn expand_n_controlled(
        &self,
        circuit: &mut QuantumCircuit,
        controls: &[usize],
        target: usize,
        gate: StandardGate,
    ) -> (r: Result<()>)
        ensures
            final(circuit)@ == old(circuit)@,
            r matches Err(e) && is_circuit_error(e, too_many_controls_message(controls@.len())),
    {
        let mut message = String::from_str("Multi-controlled gate with ");
        let count = decimal(controls.len());
        message.append(count.as_str());
        message.append(
            " controls not yet implemented. Use explicit gate decomposition for CCX/CCZ (n=2) or decompose manually.",
        );
        Err(MyQuatError::CircuitError { message })
    }

    /// Expand SWAP to CNOTs
    pub fn expand_swap(&self, circuit: &mut QuantumCircuit, q1: usize, q2: usize) -> (r: Result<()>)
        ensures
            emits(old(circuit)@, final(circuit)@, r, swap_ops(q1, q2)),
    {
        let ops = vec![
            Instruction::pair(StandardGate::CX, q1, q2),
            Instruction::pair(StandardGate::CX, q2, q1),
            Instruction::pair(StandardGate::CX, q1, q2),
        ];
        assert(views(ops@) =~= swap_ops(q1, q2));
        circuit.append_all(ops)
    }

    /// Expand Fredkin (CSWAP) to basic gates
    pub fn expand_fredkin(&self, circuit: &mut QuantumCircuit, control: usize, t1: usize, t2: usize) -> (r: Result<()>)
        ensures
            emits(old(circuit)@, final(circuit)@, r, fredkin_ops(control, t1, t2)),
    {
        let mut ops = vec![Instruction::pair(StandardGate::CX, t2, t1)];
        let mut middle = toffoli_instructions(control, t1, t2);
        ops.append(&mut middle);
        ops.push(Instruction::pair(StandardGate::CX, t2, t1));
        assert(views(ops@) =~= fredkin_ops(control, t1, t2));
        circuit.append_all(ops)
    }
}

/// A singly-controlled Pauli acts as that Pauli on the target exactly when
/// the control is 1: for X, Y and Z, on every basis state, the gates of the
/// expansion act as the Pauli on the target qubit if the control qubit is 1,
/// and leave the state as it is otherwise. A gate with one control is
/// expanded in this way.
pub proof fn law_controlled_pauli_acts_when_control_set(c: usize, t: usize, g: StandardGate, s: Seq<bool>)
    requires
        g == StandardGate::X || g == StandardGate::Y || g == StandardGate::Z,
        c != t,
        c < s.len(),
        t < s.len(),
    ensures
        multi_controlled_expansion(seq![c], t, g) == controlled_expansion(c, t, g),
        controlled_expansion(c, t, g) matches Expansion::Gates(ops)
            && sequence_action(ops, s) == (if s[c as int] { one_qubit_action(g, t as int, s) } else { Some((s, 0int)) }),
{
    assert(seq![c][0] == c);
    if let Expansion::Gates(ops) = controlled_expansion(c, t, g) {
        assert(ops =~= seq![ops[0]]);
        lemma_sequence_single(ops[0], s);
    }
}

/// The CCZ decomposition acts as CCZ: on every basis state of three
/// different qubits it gives the state back, with phase -1 (four eighths of
/// a turn, up to whole turns) exactly when both controls and the target are 1.
/// A Z with two controls is expanded in this way.
pub proof fn law_ccz_decomposition_marks_all_ones(c1: usize, c2: usize, t: usize, s: Seq<bool>)
    requires
        c1 != c2,
        c1 != t,
        c2 != t,
        c1 < s.len(),
        c2 < s.len(),
        t < s.len(),
    ensures
        multi_controlled_expansion(seq![c1, c2], t, StandardGate::Z) == Expansion::Gates(ccz_ops(c1, c2, t)),
        sequence_action(ccz_ops(c1, c2, t), s) matches Some(x)
            && x.0 == s
            && x.1 % 8 == (if s[c1 as int] && s[c2 as int] && s[t as int] { 4int } else { 0int }),
{
    assert(seq![c1, c2][0] == c1 && seq![c1, c2][1] == c2);
    let ops = ccz_ops(c1, c2, t);
    let r0 = ops;
    let s0 = s;
    lemma_sequence_cons(r0, s0);
    let s1 = if s0[c2 as int] { s0.update(t as int, !s0[t as int]) } else { s0 };
    let d0: int = 0;
    assert(basis_action(r0[0], s0) == Some((s1, d0)));
    let r1 = r0.drop_first();
    lemma_sequence_cons(r1, s1);
    let s2 = s1;
    let d1: int = if s1[t as int] { 7 } else { 0 };
    assert(basis_action(r1[0], s1) == Some((s2, d1)));
    let r2 = r1.drop_first();
    lemma_sequence_cons(r2, s2);
    let s3 = if s2[c1 as int] { s2.update(t as int, !s2[t as int]) } else { s2 };
    let d2: int = 0;
    assert(basis_action(r2[0], s2) == Some((s3, d2)));
    let r3 = r2.drop_first();
    lemma_sequence_cons(r3, s3);
    let s4 = s3;
    let d3: int = if s3[t as int] { 1 } else { 0 };
    assert(basis_action(r3[0], s3) == Some((s4, d3)));
    let r4 = r3.drop_first();
    lemma_sequence_cons(r4, s4);
    let s5 = if s4[c2 as int] { s4.update(t as int, !s4[t as int]) } else { s4 };
    let d4: int = 0;
    assert(basis_action(r4[0], s4) == Some((s5, d4)));
    let r5 = r4.drop_first();
    lemma_sequence_cons(r5, s5);
    let s6 = s5;
    let d5: int = if s5[t as int] { 7 } else { 0 };
    assert(basis_action(r5[0], s5) == Some((s6, d5)));
    let r6 = r5.drop_first();
    lemma_sequence_cons(r6, s6);
    let s7 = if s6[c1 as int] { s6.update(t as int, !s6[t as int]) } else { s6 };
    let d6: int = 0;
    assert(basis_action(r6[0], s6) == Some((s7, d6)));
    let r7 = r6.drop_first();
    lemma_sequence_cons(r7, s7);
    let s8 = s7;
    let d7: int = if s7[c2 as int] { 1 } else { 0 };
    assert(basis_action(r7[0], s7) == Some((s8, d7)));
    let r8 = r7.drop_first();
    lemma_sequence_cons(r8, s8);
    let s9 = s8;
    let d8: int = if s8[t as int] { 1 } else { 0 };
    assert(basis_action(r8[0], s8) == Some((s9, d8)));
    let r9 = r8.drop_first();
    lemma_sequence_cons(r9, s9);
    let s10 = if s9[c1 as int] { s9.update(c2 as int, !s9[c2 as int]) } else { s9 };
    let d9: int = 0;
    assert(basis_action(r9[0], s9) == Some((s10, d9)));
    let r10 = r9.drop_first();
    lemma_sequence_cons(r10, s10);
    let s11 = s10;
    let d10: int = if s10[c1 as int] { 1 } else { 0 };
    assert(basis_action(r10[0], s10) == Some((s11, d10)));
    let r11 = r10.drop_first();
    lemma_sequence_cons(r11, s11);
    let s12 = s11;
    let d11: int = if s11[c2 as int] { 7 } else { 0 };
    assert(basis_action(r11[0], s11) == Some((s12, d11)));
    let r12 = r11.drop_first();
    lemma_sequence_cons(r12, s12);
    let s13 = if s12[c1 as int] { s12.update(c2 as int, !s12[c2 as int]) } else { s12 };
    let d12: int = 0;
    assert(basis_action(r12[0], s12) == Some((s13, d12)));
    let r13 = r12.drop_first();
    assert(r13 =~= Seq::<InstrView>::empty());
    assert(s13 =~= s);
}

} // verus!
