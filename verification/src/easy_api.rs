//! Easy-to-use API: fluent circuit building and ready-made circuits for
//! common algorithms.
//!
//! Angles are given as the binary64 encoding of their value in radians.

use vstd::prelude::*;
use crate::circuit::{
    all_valid, emits, lemma_run_valid, lemma_valid_measure, lemma_valid_one, lemma_valid_two, measure_op, op,
    op1, op1f, op2, views, CircuitView, InstrView, Instruction, QuantumCircuit,
};
use crate::basis_action::{basis_action, lemma_sequence_concat, lemma_sequence_single, sequence_action};
use crate::error::{MyQuatError, Result};
use crate::gates::{pi_over_pow2_bits, Parameter, StandardGate, HALF_PI_BITS, PI_BITS};

verus! {

/// Controlled phase with the given control, target and angle encoding.
pub open spec fn cphase_op(control: usize, target: usize, angle: u64) -> InstrView {
    op(StandardGate::CP, seq![control, target], seq![Parameter::Float(angle)])
}

/// Measurements of qubit i into classical bit i, for i below `k`.
pub open spec fn measure_all_ops(k: nat) -> Seq<InstrView> {
    Seq::new(k, |i: int| measure_op(i as usize, i as usize))
}

/// The smaller of the numbers of qubits and classical bits.
pub open spec fn min_width(c: CircuitView) -> nat {
    if c.num_qubits <= c.num_clbits { c.num_qubits as nat } else { c.num_clbits as nat }
}

/// The empty circuit with `nq` qubits and `nc` classical bits.
pub open spec fn blank(nq: usize, nc: usize) -> CircuitView {
    CircuitView { num_qubits: nq, num_clbits: nc, ops: Seq::empty() }
}

fn measure_all_instructions(nq: usize, nc: usize) -> (r: Vec<Instruction>)
    ensures
        views(r@) == measure_all_ops(if nq <= nc { nq as nat } else { nc as nat }),
        all_valid(nq, nc, views(r@)),
{
    let k = if nq <= nc { nq } else { nc };
    let mut r: Vec<Instruction> = Vec::new();
    let mut i: usize = 0;
    while i < k
        invariant
            i <= k,
            k == (if nq <= nc { nq } else { nc }),
            views(r@) == measure_all_ops(i as nat),
        decreases k - i,
    {
        let ghost before = r@;
        let m = Instruction::measurement(i, i);
        r.push(m);
        assert(r@ == before.push(m));
        assert(views(r@) =~= views(before).push(measure_op(i, i)));
        i = i + 1;
        assert(views(r@) =~= measure_all_ops(i as nat));
    }
    proof {
        assert forall|j: int| 0 <= j < views(r@).len() implies
            crate::circuit::op_fault(nq, nc, #[trigger] views(r@)[j]) is None by {
            lemma_valid_measure(nq, nc, j as usize, j as usize);
        }
    }
    r
}

/// Easy quantum circuit builder with fluent API
pub struct EasyCircuit {
    circuit: QuantumCircuit,
}

impl EasyCircuit {
    /// The circuit built so far.
    pub closed spec fn circ(&self) -> CircuitView {
        self.circuit@
    }

    /// Create a new easy circuit with one classical bit per qubit
    pub fn new(num_qubits: usize) -> (r: Self)
        ensures
            r.circ() == blank(num_qubits, num_qubits),
    {
        EasyCircuit { circuit: QuantumCircuit::new(num_qubits, num_qubits) }
    }

    /// Create a new circuit with custom classical bits
    pub fn with_classical_bits(num_qubits: usize, num_clbits: usize) -> (r: Self)
        ensures
            r.circ() == blank(num_qubits, num_clbits),
    {
        EasyCircuit { circuit: QuantumCircuit::new(num_qubits, num_clbits) }
    }

    /// Apply Hadamard gate
    pub fn h(&mut self, qubit: usize) -> (r: Result<&mut Self>)
        ensures
            match r {
                Ok(s) => emits(old(self).circ(), s.circ(), Ok(()), seq![op1(StandardGate::H, qubit)])
                    && final(self).circ() == final(s).circ(),
                Err(e) => emits(old(self).circ(), final(self).circ(), Err(e), seq![op1(StandardGate::H, qubit)]),
            },
    {
        self.circuit.h(qubit)?;
        Ok(self)
    }

    /// Apply Pauli-X gate
    pub fn x(&mut self, qubit: usize) -> (r: Result<&mut Self>)
        ensures
            match r {
                Ok(s) => emits(old(self).circ(), s.circ(), Ok(()), seq![op1(StandardGate::X, qubit)])
                    && final(self).circ() == final(s).circ(),
                Err(e) => emits(old(self).circ(), final(self).circ(), Err(e), seq![op1(StandardGate::X, qubit)]),
            },
    {
        self.circuit.x(qubit)?;
        Ok(self)
    }

    /// Apply Pauli-Y gate
    pub fn y(&mut self, qubit: usize) -> (r: Result<&mut Self>)
        ensures
            match r {
                Ok(s) => emits(old(self).circ(), s.circ(), Ok(()), seq![op1(StandardGate::Y, qubit)])
                    && final(self).circ() == final(s).circ(),
                Err(e) => emits(old(self).circ(), final(self).circ(), Err(e), seq![op1(StandardGate::Y, qubit)]),
            },
    {
        self.circuit.y(qubit)?;
        Ok(self)
    }

    /// Apply Pauli-Z gate
    pub fn z(&mut self, qubit: usize) -> (r: Result<&mut Self>)
        ensures
            match r {
                Ok(s) => emits(old(self).circ(), s.circ(), Ok(()), seq![op1(StandardGate::Z, qubit)])
                    && final(self).circ() == final(s).circ(),
                Err(e) => emits(old(self).circ(), final(self).circ(), Err(e), seq![op1(StandardGate::Z, qubit)]),
            },
    {
        self.circuit.z(qubit)?;
        Ok(self)
    }

    /// Apply rotation around X-axis by the angle whose binary64 encoding is `angle`
    pub fn rx(&mut self, qubit: usize, angle: u64) -> (r: Result<&mut Self>)
        ensures
            match r {
                Ok(s) => emits(old(self).circ(), s.circ(), Ok(()), seq![op1f(StandardGate::Rx, qubit, angle)])
                    && final(self).circ() == final(s).circ(),
                Err(e) => emits(old(self).circ(), final(self).circ(), Err(e), seq![op1f(StandardGate::Rx, qubit, angle)]),
            },
    {
        self.circuit.rx(qubit, Parameter::Float(angle))?;
        Ok(self)
    }

    /// Apply rotation around Y-axis by the angle whose binary64 encoding is `angle`
    pub fn ry(&mut self, qubit: usize, angle: u64) -> (r: Result<&mut Self>)
        ensures
            match r {
                Ok(s) => emits(old(self).circ(), s.circ(), Ok(()), seq![op1f(StandardGate::Ry, qubit, angle)])
                    && final(self).circ() == final(s).circ(),
                Err(e) => emits(old(self).circ(), final(self).circ(), Err(e), seq![op1f(StandardGate::Ry, qubit, angle)]),
            },
    {
        self.circuit.ry(qubit, Parameter::Float(angle))?;
        Ok(self)
    }

    /// Apply rotation around Z-axis by the angle whose binary64 encoding is `angle`
    pub fn rz(&mut self, qubit: usize, angle: u64) -> (r: Result<&mut Self>)
        ensures
            match r {
                Ok(s) => emits(old(self).circ(), s.circ(), Ok(()), seq![op1f(StandardGate::Rz, qubit, angle)])
                    && final(self).circ() == final(s).circ(),
                Err(e) => emits(old(self).circ(), final(self).circ(), Err(e), seq![op1f(StandardGate::Rz, qubit, angle)]),
            },
    {
        self.circuit.rz(qubit, Parameter::Float(angle))?;
        Ok(self)
    }

    /// Apply CNOT gate
    pub fn cnot(&mut self, control: usize, target: usize) -> (r: Result<&mut Self>)
        ensures
            match r {
                Ok(s) => emits(old(self).circ(), s.circ(), Ok(()), seq![op2(StandardGate::CX, control, target)])
                    && final(self).circ() == final(s).circ(),
                Err(e) => emits(old(self).circ(), final(self).circ(), Err(e), seq![op2(StandardGate::CX, control, target)]),
            },
    {
        self.circuit.cx(control, target)?;
        Ok(self)
    }

    /// Apply controlled-Z gate
    pub fn cz(&mut self, control: usize, target: usize) -> (r: Result<&mut Self>)
        ensures
            match r {
                Ok(s) => emits(old(self).circ(), s.circ(), Ok(()), seq![op2(StandardGate::CZ, control, target)])
                    && final(self).circ() == final(s).circ(),
                Err(e) => emits(old(self).circ(), final(self).circ(), Err(e), seq![op2(StandardGate::CZ, control, target)]),
            },
    {
        self.circuit.cz(control, target)?;
        Ok(self)
    }

    /// Apply SWAP gate
    pub fn swap(&mut self, qubit1: usize, qubit2: usize) -> (r: Result<&mut Self>)
        ensures
            match r {
                Ok(s) => emits(old(self).circ(), s.circ(), Ok(()), seq![op2(StandardGate::Swap, qubit1, qubit2)])
                    && final(self).circ() == final(s).circ(),
                Err(e) => emits(old(self).circ(), final(self).circ(), Err(e), seq![op2(StandardGate::Swap, qubit1, qubit2)]),
            },
    {
        self.circuit.swap(qubit1, qubit2)?;
        Ok(self)
    }

    /// Apply controlled phase gate by the angle whose binary64 encoding is `angle`
    pub fn cphase(&mut self, control: usize, target: usize, angle: u64) -> (r: Result<&mut Self>)
        ensures
            match r {
                Ok(s) => emits(old(self).circ(), s.circ(), Ok(()), seq![cphase_op(control, target, angle)])
                    && final(self).circ() == final(s).circ(),
                Err(e) => emits(old(self).circ(), final(self).circ(), Err(e), seq![cphase_op(control, target, angle)]),
            },
    {
        self.circuit.cp(control, target, Parameter::Float(angle))?;
        Ok(self)
    }

    /// Apply square root of X gate, as a rotation by pi/2 about X
    /// (sqrt(X) = e^(i pi/4) Rx(pi/2))
    pub fn sqrt_x(&mut self, qubit: usize) -> (r: Result<&mut Self>)
        ensures
            match r {
                Ok(s) => emits(old(self).circ(), s.circ(), Ok(()), seq![op1f(StandardGate::Rx, qubit, HALF_PI_BITS)])
                    && final(self).circ() == final(s).circ(),
                Err(e) => emits(old(self).circ(), final(self).circ(), Err(e), seq![op1f(StandardGate::Rx, qubit, HALF_PI_BITS)]),
            },
    {
        self.circuit.rx(qubit, Parameter::Float(HALF_PI_BITS))?;
        Ok(self)
    }

    /// Apply Toffoli (CCX) gate
    pub fn toffoli(&mut self, control1: usize, control2: usize, target: usize) -> (r: Result<&mut Self>)
        ensures
            match r {
                Ok(s) => emits(old(self).circ(), s.circ(), Ok(()), seq![op(StandardGate::CCX, seq![control1, control2, target], Seq::empty())])
                    && final(self).circ() == final(s).circ(),
                Err(e) => emits(old(self).circ(), final(self).circ(), Err(e), seq![op(StandardGate::CCX, seq![control1, control2, target], Seq::empty())]),
            },
    {
        self.circuit.ccx(control1, control2, target)?;
        Ok(self)
    }

    /// Measure a qubit
    pub fn measure(&mut self, qubit: usize, clbit: usize) -> (r: Result<&mut Self>)
        ensures
            match r {
                Ok(s) => emits(old(self).circ(), s.circ(), Ok(()), seq![measure_op(qubit, clbit)])
                    && final(self).circ() == final(s).circ(),
                Err(e) => emits(old(self).circ(), final(self).circ(), Err(e), seq![measure_op(qubit, clbit)]),
            },
    {
        self.circuit.measure(qubit, clbit)?;
        Ok(self)
    }


    /// Measure every qubit that has a classical bit of the same index into it
    pub fn measure_all(&mut self) -> (r: Result<&mut Self>)
        ensures
            r is Ok,
            match r {
                Ok(s) => emits(old(self).circ(), s.circ(), Ok(()), measure_all_ops(min_width(old(self).circ())))
                    && final(self).circ() == final(s).circ(),
                Err(e) => false,
            },
    {
        let nq = self.circuit.num_qubits();
        let nc = self.circuit.num_clbits();
        let ops = measure_all_instructions(nq, nc);
        proof {
            lemma_run_valid(self.circuit@, views(ops@));
        }
        let res = self.circuit.append_all(ops);
        match res {
            Ok(()) => Ok(self),
            Err(e) => Err(e),
        }
    }

    /// Get number of qubits
    pub fn num_qubits(&self) -> (r: usize)
        ensures
            r == self.circ().num_qubits,
    {
        self.circuit.num_qubits()
    }

    /// Get number of gates
    pub fn num_gates(&self) -> (r: usize)
        ensures
            r == self.circ().ops.len(),
    {
        self.circuit.size()
    }

    /// Get the underlying circuit
    pub fn circuit(&self) -> (r: &QuantumCircuit)
        ensures
            r@ == self.circ(),
    {
        &self.circuit
    }

    /// Convert to owned circuit
    pub fn into_circuit(self) -> (r: QuantumCircuit)
        ensures
            r@ == self.circ(),
    {
        self.circuit
    }

    /// Add instructions that are all accepted.
    fn add_valid(&mut self, ops: Vec<Instruction>)
        requires
            all_valid(old(self).circ().num_qubits, old(self).circ().num_clbits, views(ops@)),
        ensures
            final(self).circ() == (CircuitView { ops: old(self).circ().ops + views(ops@), ..old(self).circ() }),
    {
        proof {
            lemma_run_valid(self.circuit@, views(ops@));
        }
        let _ = self.circuit.append_all(ops);
    }
}

/// Gate `g` on each of the qubits 0..n, in order.
pub open spec fn on_each(g: StandardGate, n: nat) -> Seq<InstrView> {
    Seq::new(n, |i: int| op1(g, i as usize))
}

/// X on every qubit i below n whose bit i of `target` is 0, in order.
pub open spec fn zero_bit_flips(n: nat, target: usize) -> Seq<InstrView>
    decreases n,
{
    if n == 0 {
        Seq::empty()
    } else {
        zero_bit_flips((n - 1) as nat, target) + if (target >> ((n - 1) as usize)) & 1 == 0 {
            seq![op1(StandardGate::X, (n - 1) as usize)]
        } else {
            Seq::empty()
        }
    }
}

/// CZ(0, 1) when there are exactly two qubits, else nothing.
pub open spec fn cz_if_two(n: nat) -> Seq<InstrView> {
    if n == 2 { seq![op2(StandardGate::CZ, 0, 1)] } else { Seq::empty() }
}

/// Phase oracle marking `target`: flip its zero bits, CZ on two qubits, flip back;
/// nothing when `target` has no basis state.
pub open spec fn grover_oracle(n: usize, target: usize) -> Seq<InstrView> {
    if target < (1usize << n) {
        zero_bit_flips(n as nat, target) + cz_if_two(n as nat) + zero_bit_flips(n as nat, target)
    } else {
        Seq::empty()
    }
}

/// One Grover iteration on `n` qubits searching for `target`, then measurement.
pub open spec fn grover_ops(n: usize, target: usize) -> Seq<InstrView> {
    on_each(StandardGate::H, n as nat) + grover_oracle(n, target) + on_each(StandardGate::H, n as nat)
        + on_each(StandardGate::X, n as nat) + cz_if_two(n as nat) + on_each(StandardGate::X, n as nat)
        + on_each(StandardGate::H, n as nat) + measure_all_ops(n as nat)
}

/// Hadamard on qubit i, then controlled phases pi/2^(j-i) from each later qubit j.
pub open spec fn qft_layer(n: nat, i: nat) -> Seq<InstrView> {
    seq![op1(StandardGate::H, i as usize)] + Seq::new(
        (n - i - 1) as nat,
        |k: int| cphase_op((i + 1 + k) as usize, i as usize, pi_over_pow2_bits((k + 1) as nat) as u64),
    )
}

/// The first `m` layers of the quantum Fourier transform on `n` qubits.
pub open spec fn qft_layers(n: nat, m: nat) -> Seq<InstrView>
    decreases m,
{
    if m == 0 {
        Seq::empty()
    } else {
        qft_layers(n, (m - 1) as nat) + qft_layer(n, (m - 1) as nat)
    }
}

/// Swaps reversing the qubit order.
pub open spec fn reversal_swaps(n: nat) -> Seq<InstrView> {
    Seq::new(n / 2, |i: int| op2(StandardGate::Swap, i as usize, (n - 1 - i) as usize))
}

/// Quantum Fourier transform on `n` qubits, then measurement.
pub open spec fn qft_ops(n: nat) -> Seq<InstrView> {
    qft_layers(n, n) + reversal_swaps(n) + measure_all_ops(n)
}

/// Bell pair on qubits 0 and 1, then measurement.
pub open spec fn bell_ops() -> Seq<InstrView> {
    seq![op1(StandardGate::H, 0), op2(StandardGate::CX, 0, 1)] + measure_all_ops(2)
}

/// GHZ state on `n` qubits, then measurement.
pub open spec fn ghz_ops(n: nat) -> Seq<InstrView> {
    seq![op1(StandardGate::H, 0)] + Seq::new((n - 1) as nat, |k: int| op2(StandardGate::CX, 0, (k + 1) as usize))
        + measure_all_ops(n)
}

/// Hadamard on every qubit, then measurement.
pub open spec fn random_bits_ops(n: nat) -> Seq<InstrView> {
    on_each(StandardGate::H, n) + measure_all_ops(n)
}

/// The teleportation circuit on three qubits.
pub open spec fn teleportation_ops() -> Seq<InstrView> {
    seq![
        op1(StandardGate::H, 1),
        op2(StandardGate::CX, 1, 2),
        op2(StandardGate::CX, 0, 1),
        op1(StandardGate::H, 0),
        measure_op(0, 0),
        measure_op(1, 1),
        measure_op(2, 2),
    ]
}

/// Append `ins` to `ops`, keeping every instruction valid for the widths.
pub(crate) fn push_valid(ops: &mut Vec<Instruction>, ins: Instruction, nq: usize, nc: usize)
    requires
        all_valid(nq, nc, views(old(ops)@)),
        crate::circuit::op_fault(nq, nc, ins@) is None,
    ensures
        views(final(ops)@) == views(old(ops)@).push(ins@),
        all_valid(nq, nc, views(final(ops)@)),
{
    let ghost before = ops@;
    let ghost v = ins@;
    ops.push(ins);
    assert(views(ops@) =~= views(before).push(v));
}

/// Append all of `more` to `ops`.
pub(crate) fn join(ops: &mut Vec<Instruction>, more: Vec<Instruction>, nq: usize, nc: usize)
    requires
        all_valid(nq, nc, views(old(ops)@)),
        all_valid(nq, nc, views(more@)),
    ensures
        views(final(ops)@) == views(old(ops)@) + views(more@),
        all_valid(nq, nc, views(final(ops)@)),
{
    let ghost before = ops@;
    let ghost m = more@;
    let mut more = more;
    ops.append(&mut more);
    assert(views(ops@) =~= views(before) + views(m));
}

/// Gate `g` on each qubit below `n`.
fn on_each_vec(g: StandardGate, n: usize, nc: usize) -> (r: Vec<Instruction>)
    ensures
        views(r@) == on_each(g, n as nat),
        all_valid(n, nc, views(r@)),
{
    let mut r: Vec<Instruction> = Vec::new();
    let mut i: usize = 0;
    while i < n
        invariant
            i <= n,
            views(r@) == on_each(g, i as nat),
            all_valid(n, nc, views(r@)),
        decreases n - i,
    {
        proof {
            lemma_valid_one(n, nc, g, i, Seq::empty());
        }
        push_valid(&mut r, Instruction::single(g, i), n, nc);
        i = i + 1;
        assert(views(r@) =~= on_each(g, i as nat));
    }
    r
}

/// X on each qubit below `n` whose bit of `target` is 0.
fn zero_bit_flips_vec(n: usize, target: usize, nc: usize) -> (r: Vec<Instruction>)
    requires
        n < usize::BITS,
    ensures
        views(r@) == zero_bit_flips(n as nat, target),
        all_valid(n, nc, views(r@)),
{
    let mut r: Vec<Instruction> = Vec::new();
    let mut i: usize = 0;
    while i < n
        invariant
            i <= n < usize::BITS,
            views(r@) == zero_bit_flips(i as nat, target),
            all_valid(n, nc, views(r@)),
        decreases n - i,
    {
        if (target >> i) & 1 == 0 {
            proof {
                lemma_valid_one(n, nc, StandardGate::X, i, Seq::empty());
            }
            push_valid(&mut r, Instruction::single(StandardGate::X, i), n, nc);
        }
        i = i + 1;
        assert(views(r@) =~= zero_bit_flips(i as nat, target));
    }
    r
}

/// CZ(0, 1) when `n` is 2.
fn cz_if_two_vec(n: usize, nc: usize) -> (r: Vec<Instruction>)
    ensures
        views(r@) == cz_if_two(n as nat),
        all_valid(n, nc, views(r@)),
{
    let mut r: Vec<Instruction> = Vec::new();
    if n == 2 {
        proof {
            lemma_valid_two(n, nc, StandardGate::CZ, 0, 1, Seq::empty());
        }
        push_valid(&mut r, Instruction::pair(StandardGate::CZ, 0, 1), n, nc);
    }
    assert(views(r@) =~= cz_if_two(n as nat));
    r
}

/// Binary64 encoding of pi / 2^d.
fn pi_over_pow2(d: usize) -> (r: u64)
    requires
        d < 64,
    ensures
        r == pi_over_pow2_bits(d as nat),
{
    PI_BITS - (d as u64) * 0x10000000000000u64
}

/// One layer of the quantum Fourier transform.
fn qft_layer_vec(n: usize, i: usize) -> (r: Vec<Instruction>)
    requires
        i < n <= 64,
    ensures
        views(r@) == qft_layer(n as nat, i as nat),
        all_valid(n, n, views(r@)),
{
    let mut r: Vec<Instruction> = Vec::new();
    proof {
        lemma_valid_one(n, n, StandardGate::H, i, Seq::empty());
    }
    push_valid(&mut r, Instruction::single(StandardGate::H, i), n, n);
    let mut j: usize = i + 1;
    while j < n
        invariant
            i < j <= n <= 64,
            views(r@) == seq![op1(StandardGate::H, i)] + Seq::new(
                (j - i - 1) as nat,
                |k: int| cphase_op((i + 1 + k) as usize, i, pi_over_pow2_bits((k + 1) as nat) as u64),
            ),
            all_valid(n, n, views(r@)),
        decreases n - j,
    {
        let angle = pi_over_pow2(j - i);
        let ghost a = angle;
        let ins = Instruction::new(StandardGate::CP, vec![j, i], vec![Parameter::Float(angle)]);
        assert(ins@ == cphase_op(j, i, a)) by {
            assert(ins@.qubits =~= seq![j, i]);
            assert(ins@.params =~= seq![Parameter::Float(a)]);
        }
        proof {
            lemma_valid_two(n, n, StandardGate::CP, j, i, seq![Parameter::Float(a)]);
        }
        push_valid(&mut r, ins, n, n);
        j = j + 1;
        assert(views(r@) =~= seq![op1(StandardGate::H, i)] + Seq::new(
            (j - i - 1) as nat,
            |k: int| cphase_op((i + 1 + k) as usize, i, pi_over_pow2_bits((k + 1) as nat) as u64),
        ));
    }
    r
}

/// Swaps reversing the order of `n` qubits.
fn reversal_swaps_vec(n: usize, nc: usize) -> (r: Vec<Instruction>)
    ensures
        views(r@) == reversal_swaps(n as nat),
        all_valid(n, nc, views(r@)),
{
    let mut r: Vec<Instruction> = Vec::new();
    let mut i: usize = 0;
    while i < n / 2
        invariant
            i <= n / 2,
            views(r@) == Seq::new(i as nat, |k: int| op2(StandardGate::Swap, k as usize, (n - 1 - k) as usize)),
            all_valid(n, nc, views(r@)),
        decreases n / 2 - i,
    {
        proof {
            lemma_valid_two(n, nc, StandardGate::Swap, i, (n - 1 - i) as usize, Seq::empty());
        }
        push_valid(&mut r, Instruction::pair(StandardGate::Swap, i, n - 1 - i), n, nc);
        i = i + 1;
        assert(views(r@) =~= Seq::new(i as nat, |k: int| op2(StandardGate::Swap, k as usize, (n - 1 - k) as usize)));
    }
    assert(views(r@) =~= reversal_swaps(n as nat));
    r
}

/// Easy algorithm builder for common quantum algorithms
pub struct EasyAlgorithms;

impl EasyAlgorithms {
    /// Create a Bell state circuit (|00> + |11>)/sqrt 2
    pub fn bell_state() -> (r: Result<EasyCircuit>)
        ensures
            r matches Ok(c) && c.circ() == (CircuitView { ops: bell_ops(), ..blank(2, 2) }),
    {
        let mut c = EasyCircuit::new(2);
        let mut ops: Vec<Instruction> = Vec::new();
        proof {
            lemma_valid_one(2, 2, StandardGate::H, 0, Seq::empty());
            lemma_valid_two(2, 2, StandardGate::CX, 0, 1, Seq::empty());
        }
        push_valid(&mut ops, Instruction::single(StandardGate::H, 0), 2, 2);
        push_valid(&mut ops, Instruction::pair(StandardGate::CX, 0, 1), 2, 2);
        join(&mut ops, measure_all_instructions(2, 2), 2, 2);
        c.add_valid(ops);
        assert(c.circ().ops =~= bell_ops());
        Ok(c)
    }

    /// Create a GHZ state circuit (|00..0> + |11..1>)/sqrt 2
    pub fn ghz_state(num_qubits: usize) -> (r: Result<EasyCircuit>)
        ensures
            num_qubits == 0 ==> (r matches Err(MyQuatError::InvalidQubitIndex { index, num_qubits: n })
                && index == 0 && n == 0),
            num_qubits > 0 ==> (r matches Ok(c)
                && c.circ() == (CircuitView { ops: ghz_ops(num_qubits as nat), ..blank(num_qubits, num_qubits) })),
    {
        let mut c = EasyCircuit::new(num_qubits);
        if num_qubits == 0 {
            return Err(MyQuatError::InvalidQubitIndex { index: 0, num_qubits: 0 });
        }
        let n = num_qubits;
        let mut ops: Vec<Instruction> = Vec::new();
        proof {
            lemma_valid_one(n, n, StandardGate::H, 0, Seq::empty());
        }
        push_valid(&mut ops, Instruction::single(StandardGate::H, 0), n, n);
        let mut i: usize = 1;
        while i < n
            invariant
                1 <= i <= n,
                views(ops@) == seq![op1(StandardGate::H, 0)] + Seq::new(
                    (i - 1) as nat,
                    |k: int| op2(StandardGate::CX, 0, (k + 1) as usize),
                ),
                all_valid(n, n, views(ops@)),
            decreases n - i,
        {
            proof {
                lemma_valid_two(n, n, StandardGate::CX, 0, i, Seq::empty());
            }
            push_valid(&mut ops, Instruction::pair(StandardGate::CX, 0, i), n, n);
            i = i + 1;
            assert(views(ops@) =~= seq![op1(StandardGate::H, 0)] + Seq::new(
                (i - 1) as nat,
                |k: int| op2(StandardGate::CX, 0, (k + 1) as usize),
            ));
        }
        join(&mut ops, measure_all_instructions(n, n), n, n);
        c.add_valid(ops);
        assert(c.circ().ops =~= ghz_ops(n as nat));
        Ok(c)
    }

    /// Create a quantum random number generator
    pub fn random_bits(num_bits: usize) -> (r: Result<EasyCircuit>)
        ensures
            r matches Ok(c)
                && c.circ() == (CircuitView { ops: random_bits_ops(num_bits as nat), ..blank(num_bits, num_bits) }),
    {
        let n = num_bits;
        let mut c = EasyCircuit::new(n);
        let mut ops = on_each_vec(StandardGate::H, n, n);
        join(&mut ops, measure_all_instructions(n, n), n, n);
        c.add_valid(ops);
        assert(c.circ().ops =~= random_bits_ops(n as nat));
        Ok(c)
    }

    /// Create a simple Grover search circuit: one oracle call for `target`
    /// and one diffusion step
    pub fn grover_search(num_qubits: usize, target: usize) -> (r: Result<EasyCircuit>)
        requires
            num_qubits < usize::BITS,
        ensures
            r matches Ok(c)
                && c.circ() == (CircuitView { ops: grover_ops(num_qubits, target), ..blank(num_qubits, num_qubits) }),
    {
        let n = num_qubits;
        let mut c = EasyCircuit::new(n);
        let mut ops = on_each_vec(StandardGate::H, n, n);
        let ghost oracle_start = views(ops@);
        if target < (1usize << n) {
            join(&mut ops, zero_bit_flips_vec(n, target, n), n, n);
            join(&mut ops, cz_if_two_vec(n, n), n, n);
            join(&mut ops, zero_bit_flips_vec(n, target, n), n, n);
        }
        assert(views(ops@) =~= on_each(StandardGate::H, n as nat) + grover_oracle(n, target));
        join(&mut ops, on_each_vec(StandardGate::H, n, n), n, n);
        join(&mut ops, on_each_vec(StandardGate::X, n, n), n, n);
        join(&mut ops, cz_if_two_vec(n, n), n, n);
        join(&mut ops, on_each_vec(StandardGate::X, n, n), n, n);
        join(&mut ops, on_each_vec(StandardGate::H, n, n), n, n);
        join(&mut ops, measure_all_instructions(n, n), n, n);
        c.add_valid(ops);
        assert(c.circ().ops =~= grover_ops(n, target));
        Ok(c)
    }

    /// Create a QFT circuit
    pub fn qft(num_qubits: usize) -> (r: Result<EasyCircuit>)
        requires
            num_qubits <= 64,
        ensures
            r matches Ok(c)
                && c.circ() == (CircuitView { ops: qft_ops(num_qubits as nat), ..blank(num_qubits, num_qubits) }),
    {
        let n = num_qubits;
        let mut c = EasyCircuit::new(n);
        let mut ops: Vec<Instruction> = Vec::new();
        let mut i: usize = 0;
        while i < n
            invariant
                i <= n <= 64,
                views(ops@) == qft_layers(n as nat, i as nat),
                all_valid(n, n, views(ops@)),
            decreases n - i,
        {
            join(&mut ops, qft_layer_vec(n, i), n, n);
            i = i + 1;
        }
        join(&mut ops, reversal_swaps_vec(n, n), n, n);
        join(&mut ops, measure_all_instructions(n, n), n, n);
        c.add_valid(ops);
        assert(c.circ().ops =~= qft_ops(n as nat));
        Ok(c)
    }

    /// Create a quantum teleportation circuit
    pub fn teleportation() -> (r: Result<EasyCircuit>)
        ensures
            r matches Ok(c) && c.circ() == (CircuitView { ops: teleportation_ops(), ..blank(3, 3) }),
    {
        let mut c = EasyCircuit::new(3);
        let mut ops: Vec<Instruction> = Vec::new();
        proof {
            lemma_valid_one(3, 3, StandardGate::H, 1, Seq::empty());
            lemma_valid_one(3, 3, StandardGate::H, 0, Seq::empty());
            lemma_valid_two(3, 3, StandardGate::CX, 1, 2, Seq::empty());
            lemma_valid_two(3, 3, StandardGate::CX, 0, 1, Seq::empty());
            lemma_valid_measure(3, 3, 0, 0);
            lemma_valid_measure(3, 3, 1, 1);
            lemma_valid_measure(3, 3, 2, 2);
        }
        push_valid(&mut ops, Instruction::single(StandardGate::H, 1), 3, 3);
        push_valid(&mut ops, Instruction::pair(StandardGate::CX, 1, 2), 3, 3);
        push_valid(&mut ops, Instruction::pair(StandardGate::CX, 0, 1), 3, 3);
        push_valid(&mut ops, Instruction::single(StandardGate::H, 0), 3, 3);
        push_valid(&mut ops, Instruction::measurement(0, 0), 3, 3);
        push_valid(&mut ops, Instruction::measurement(1, 1), 3, 3);
        push_valid(&mut ops, Instruction::measurement(2, 2), 3, 3);
        c.add_valid(ops);
        assert(c.circ().ops =~= teleportation_ops());
        Ok(c)
    }
}


/// The optimization suggestions for a circuit of `qubits` qubits and
/// `gates` gates: gate reduction beyond ten gates per qubit, GPU
/// acceleration beyond ten qubits, parallel execution beyond six qubits,
/// and always the note on automatic strategy selection.
pub open spec fn suggestion_texts(qubits: nat, gates: nat) -> Seq<Seq<char>> {
    (if gates > qubits * 10 { seq!["• 考虑使用电路优化来减少门数量"@] } else { Seq::empty() })
        + (if qubits > 10 { seq!["• 大规模电路建议启用GPU加速"@] } else { Seq::empty() })
        + (if qubits > 6 { seq!["• 建议启用并行计算优化"@] } else { Seq::empty() })
        + seq!["• 当前配置会自动选择最优执行策略"@]
}

/// The texts of a list of strings.
pub open spec fn string_texts(s: Seq<String>) -> Seq<Seq<char>> {
    s.map_values(|x: String| x@)
}

/// Append `text` to `lines`.
fn push_line(lines: &mut Vec<String>, text: &str)
    ensures
        string_texts(final(lines)@) == string_texts(old(lines)@).push(text@),
{
    let ghost before = lines@;
    lines.push(String::from_str(text));
    assert(string_texts(lines@) =~= string_texts(before).push(text@));
}

/// Circuit analysis helpers for the easy API
pub struct EasyAnalysis;

impl EasyAnalysis {
    /// Suggest optimizations for a circuit: the lines printed under the
    /// heading of the suggestions, in order
    pub fn suggest_optimizations(circuit: &EasyCircuit) -> (r: Vec<String>)
        requires
            circuit.circ().num_qubits * 10 <= usize::MAX,
        ensures
            string_texts(r@) == suggestion_texts(circuit.circ().num_qubits as nat, circuit.circ().ops.len()),
    {
        let num_gates = circuit.num_gates();
        let num_qubits = circuit.num_qubits();
        let mut lines: Vec<String> = Vec::new();
        proof {
            assert(string_texts(lines@) =~= Seq::<Seq<char>>::empty());
        }
        if num_gates > num_qubits * 10 {
            push_line(&mut lines, "• 考虑使用电路优化来减少门数量");
        }
        if num_qubits > 10 {
            push_line(&mut lines, "• 大规模电路建议启用GPU加速");
        }
        if num_qubits > 6 {
            push_line(&mut lines, "• 建议启用并行计算优化");
        }
        push_line(&mut lines, "• 当前配置会自动选择最优执行策略");
        proof {
            assert(string_texts(lines@) =~= suggestion_texts(num_qubits as nat, num_gates as nat));
        }
        lines
    }
}

/// The position of the outcome `max_by_key` picks from `results`: the last
/// one with the highest count.
pub open spec fn is_last_maximum(results: Seq<(String, usize)>, i: int) -> bool {
    &&& 0 <= i < results.len()
    &&& forall|j: int| 0 <= j < results.len() ==> #[trigger] results[j].1 <= results[i].1
    &&& forall|j: int| i < j < results.len() ==> #[trigger] results[j].1 < results[i].1
}

/// The most probable measurement outcome among `results` (outcome and
/// count, in the order they are listed): the last of those with the highest
/// count; an error when there are none
pub fn most_probable_outcome(results: &Vec<(String, usize)>) -> (r: Result<String>)
    ensures
        match r {
            Ok(s) => exists|i: int| is_last_maximum(results@, i) && s@ == results@[i].0@,
            Err(e) => results@.len() == 0 && (e matches MyQuatError::CircuitError { message } && message@
                == "No measurement results"@),
        },
{
    if results.len() == 0 {
        return Err(MyQuatError::circuit_error("No measurement results"));
    }
    let mut best: usize = 0;
    let mut i: usize = 1;
    while i < results.len()
        invariant
            1 <= i <= results.len(),
            best < i,
            forall|j: int| 0 <= j < i ==> #[trigger] results@[j].1 <= results@[best as int].1,
            forall|j: int| best < j < i ==> #[trigger] results@[j].1 < results@[best as int].1,
        decreases results.len() - i,
    {
        if results[i].1 >= results[best].1 {
            best = i;
        }
        i = i + 1;
    }
    let s = results[best].0.clone();
    assert(is_last_maximum(results@, best as int));
    Ok(s)
}

/// Bit `i` of `target`.
pub open spec fn target_bit(target: usize, i: nat) -> bool {
    (target >> (i as usize)) & 1 != 0
}

/// The basis state of `n` qubits whose qubit `i` holds bit `i` of `target`.
pub open spec fn bits_of(target: usize, n: nat) -> Seq<bool> {
    Seq::new(n, |i: int| target_bit(target, i as nat))
}

/// `s` with each qubit `i` below `n` flipped where bit `i` of `target` is 0.
pub open spec fn flipped_at_zero_bits(s: Seq<bool>, n: nat, target: usize) -> Seq<bool> {
    Seq::new(s.len(), |i: int| if i < n && !target_bit(target, i as nat) { !s[i] } else { s[i] })
}

/// The flips around the oracle's CZ flip exactly the qubits where the
/// target has a 0 bit, and add no phase.
proof fn lemma_zero_bit_flips(n: nat, target: usize, s: Seq<bool>)
    requires
        n <= s.len(),
        n <= usize::MAX,
    ensures
        sequence_action(zero_bit_flips(n, target), s) == Some((flipped_at_zero_bits(s, n, target), 0int)),
    decreases n,
{
    if n == 0 {
        assert(flipped_at_zero_bits(s, 0, target) =~= s);
        assert(zero_bit_flips(0, target) =~= Seq::<InstrView>::empty());
    } else {
        let m = (n - 1) as nat;
        let tail = if (target >> ((n - 1) as usize)) & 1 == 0 {
            seq![op1(StandardGate::X, (n - 1) as usize)]
        } else {
            Seq::empty()
        };
        assert(zero_bit_flips(n, target) == zero_bit_flips(m, target) + tail);
        lemma_sequence_concat(zero_bit_flips(m, target), tail, s);
        lemma_zero_bit_flips(m, target, s);
        let t = flipped_at_zero_bits(s, m, target);
        if (target >> ((n - 1) as usize)) & 1 == 0 {
            lemma_sequence_single(op1(StandardGate::X, (n - 1) as usize), t);
            assert(((n - 1) as usize) as int == m);
            assert(basis_action(op1(StandardGate::X, (n - 1) as usize), t) == Some((t.update(m as int, !t[m as int]), 0int)));
            assert(!target_bit(target, m));
            assert(t.update(m as int, !t[m as int]) =~= flipped_at_zero_bits(s, n, target));
        } else {
            assert(tail =~= Seq::<InstrView>::empty());
            assert(sequence_action(tail, t) == Some((t, 0int)));
            assert(target_bit(target, m));
            assert(t =~= flipped_at_zero_bits(s, n, target));
        }
    }
}

/// The Grover oracle's flips send the target to the all-ones state: on the
/// basis state whose qubits hold the bits of `target`, the X gates before
/// the CZ give the state whose qubits are all 1, with no phase.
pub proof fn law_oracle_flips_send_target_to_ones(n: usize, target: usize)
    ensures
        sequence_action(zero_bit_flips(n as nat, target), bits_of(target, n as nat))
            == Some((Seq::new(n as nat, |i: int| true), 0int)),
{
    lemma_zero_bit_flips(n as nat, target, bits_of(target, n as nat));
    assert(flipped_at_zero_bits(bits_of(target, n as nat), n as nat, target) =~= Seq::new(n as nat, |i: int| true));
}

/// The two-qubit Grover oracle marks exactly its target: on every basis
/// state of two qubits, it gives the state back, with phase -1 (four eighths
/// of a turn) when the state is the target and no phase otherwise.
pub proof fn law_two_qubit_oracle_marks_target(target: usize, s: Seq<bool>)
    requires
        target < 4,
        s.len() == 2,
    ensures
        sequence_action(grover_oracle(2, target), s) == Some((s, if s == bits_of(target, 2) { 4int } else { 0int })),
{
    assert((1usize << 2usize) == 4usize) by (bit_vector);
    let flips = zero_bit_flips(2, target);
    let cz = cz_if_two(2);
    assert(grover_oracle(2, target) == flips + cz + flips);
    lemma_zero_bit_flips(2, target, s);
    let t = flipped_at_zero_bits(s, 2, target);
    lemma_sequence_concat(flips, cz, s);
    lemma_sequence_single(op2(StandardGate::CZ, 0, 1), t);
    let marked = t[0] && t[1];
    let p: int = if marked { 4 } else { 0 };
    assert(basis_action(op2(StandardGate::CZ, 0, 1), t) == Some((t, p)));
    lemma_sequence_concat(flips + cz, flips, s);
    lemma_zero_bit_flips(2, target, t);
    assert(flipped_at_zero_bits(t, 2, target) =~= s);
    if s == bits_of(target, 2) {
        assert(s[0] == target_bit(target, 0) && s[1] == target_bit(target, 1));
        assert(marked);
    } else {
        if marked {
            assert(s =~= bits_of(target, 2));
        }
    }
}

} // verus!
