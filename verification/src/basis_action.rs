//! How the gates that send computational basis states to basis states act.
//!
//! A basis state is the sequence of its qubits' values. Such a gate sends it
//! to another basis state times a phase, an eighth root of unity, written as
//! the number of eighths of a turn. These are the Pauli gates, S, T and their
//! adjoints, the controlled Paulis and SWAP.

use vstd::prelude::*;
use crate::circuit::InstrView;
use crate::gates::StandardGate;

verus! {

/// The action of a one-qubit gate on qubit `q` of basis state `s`, where
/// the state has that qubit: the
/// identity; X flips the qubit; Y flips it with phase i from 0 and -i from 1;
/// Z, S, T and the adjoints of S and T give qubit value 1 the phase -1, i,
/// e^(i pi/4), -i and e^(-i pi/4).
pub open spec fn one_qubit_action(g: StandardGate, q: int, s: Seq<bool>) -> Option<(Seq<bool>, int)> {
    if !(0 <= q < s.len()) {
        None
    } else {
        one_qubit_action_in_range(g, q, s)
    }
}

/// The action of a one-qubit gate on a qubit of the state.
pub open spec fn one_qubit_action_in_range(g: StandardGate, q: int, s: Seq<bool>) -> Option<(Seq<bool>, int)> {
    match g {
        StandardGate::I => Some((s, 0)),
        StandardGate::X => Some((s.update(q, !s[q]), 0)),
        StandardGate::Y => Some((s.update(q, !s[q]), if s[q] { 6 } else { 2 })),
        StandardGate::Z => Some((s, if s[q] { 4 } else { 0 })),
        StandardGate::S => Some((s, if s[q] { 2 } else { 0 })),
        StandardGate::Sdg => Some((s, if s[q] { 6 } else { 0 })),
        StandardGate::T => Some((s, if s[q] { 1 } else { 0 })),
        StandardGate::Tdg => Some((s, if s[q] { 7 } else { 0 })),
        _ => None,
    }
}

/// For a controlled kind, the one-qubit kind acting on the target qubit.
pub open spec fn controlled_target(g: StandardGate) -> Option<StandardGate> {
    match g {
        StandardGate::CX => Some(StandardGate::X),
        StandardGate::CY => Some(StandardGate::Y),
        StandardGate::CZ => Some(StandardGate::Z),
        _ => None,
    }
}

/// The action of one instruction on basis state `s`, where it sends basis
/// states to basis states and its qubits are qubits of the state: a controlled gate acts on its target exactly when
/// its control qubit is 1; SWAP exchanges its two qubits.
pub open spec fn basis_action(o: InstrView, s: Seq<bool>) -> Option<(Seq<bool>, int)> {
    if o.qubits.len() == 1 {
        one_qubit_action(o.gate, o.qubits[0] as int, s)
    } else if o.qubits.len() == 2 && !(o.qubits[0] < s.len() && o.qubits[1] < s.len()) {
        None
    } else if o.qubits.len() == 2 && controlled_target(o.gate) is Some {
        if s[o.qubits[0] as int] {
            one_qubit_action(controlled_target(o.gate)->Some_0, o.qubits[1] as int, s)
        } else {
            Some((s, 0))
        }
    } else if o.qubits.len() == 2 && o.gate == StandardGate::Swap {
        let a = o.qubits[0] as int;
        let b = o.qubits[1] as int;
        Some((s.update(a, s[b]).update(b, s[a]), 0))
    } else {
        None
    }
}

/// The action of a sequence of instructions, applied in order, on basis
/// state `s`: the final state and the phases added up.
pub open spec fn sequence_action(ops: Seq<InstrView>, s: Seq<bool>) -> Option<(Seq<bool>, int)>
    decreases ops.len(),
{
    if ops.len() == 0 {
        Some((s, 0))
    } else {
        match basis_action(ops[0], s) {
            None => None,
            Some(first) => match sequence_action(ops.drop_first(), first.0) {
                None => None,
                Some(rest) => Some((rest.0, first.1 + rest.1)),
            },
        }
    }
}

/// Acting with `a` and then `b`.
pub open spec fn then_action(first: Option<(Seq<bool>, int)>, b: Seq<InstrView>) -> Option<(Seq<bool>, int)> {
    match first {
        None => None,
        Some(x) => match sequence_action(b, x.0) {
            None => None,
            Some(y) => Some((y.0, x.1 + y.1)),
        },
    }
}

/// Acting with `a + b` is acting with `a`, then with `b`.
pub proof fn lemma_sequence_concat(a: Seq<InstrView>, b: Seq<InstrView>, s: Seq<bool>)
    ensures
        sequence_action(a + b, s) == then_action(sequence_action(a, s), b),
    decreases a.len(),
{
    if a.len() == 0 {
        assert(a + b =~= b);
        match sequence_action(b, s) {
            None => {},
            Some(y) => { assert(0 + y.1 == y.1); },
        }
    } else {
        assert((a + b).drop_first() =~= a.drop_first() + b);
        assert((a + b)[0] == a[0]);
        match basis_action(a[0], s) {
            None => {},
            Some(first) => {
                lemma_sequence_concat(a.drop_first(), b, first.0);
            },
        }
    }
}

/// Acting with a single instruction.
pub proof fn lemma_sequence_single(o: InstrView, s: Seq<bool>)
    ensures
        sequence_action(seq![o], s) == basis_action(o, s),
{
    let one = seq![o];
    assert(one.drop_first() =~= Seq::<InstrView>::empty());
    assert(one[0] == o);
    assert(one.len() == 1);
    match basis_action(o, s) {
        None => {},
        Some(x) => {
            assert(sequence_action(one.drop_first(), x.0) == Some((x.0, 0int)));
            assert(x.1 + 0 == x.1);
            assert(x == (x.0, x.1));
        },
    }
}

/// Acting with a non-empty sequence is acting with its first instruction,
/// then with the rest.
pub proof fn lemma_sequence_cons(ops: Seq<InstrView>, s: Seq<bool>)
    requires
        ops.len() > 0,
    ensures
        sequence_action(ops, s) == then_action(basis_action(ops[0], s), ops.drop_first()),
{
}

/// Acting on a basis state keeps its number of qubits.
pub proof fn lemma_action_keeps_length(ops: Seq<InstrView>, s: Seq<bool>)
    ensures
        sequence_action(ops, s) matches Some(x) ==> x.0.len() == s.len(),
    decreases ops.len(),
{
    if ops.len() > 0 {
        match basis_action(ops[0], s) {
            None => {},
            Some(first) => {
                lemma_action_keeps_length(ops.drop_first(), first.0);
            },
        }
    }
}

} // verus!
