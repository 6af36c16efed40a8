//! Quantum circuits as checked sequences of gate applications.
//!
//! Every operation that adds to a circuit validates its qubit and classical
//! bit indices first; a rejected operation leaves the circuit unchanged.
//! Operations that add several gates stop at the first rejected gate, so the
//! circuit then holds exactly the gates before it.

use vstd::prelude::*;
use crate::error::{MyQuatError, Result};
use crate::gates::{Gate, Parameter, StandardGate};

verus! {

/// One gate application: a gate on qubits, writing to classical bits.
#[derive(Debug, Clone)]
pub struct Instruction {
    pub gate: Gate,
    pub qubits: Vec<usize>,
    pub clbits: Vec<usize>,
}

/// Mathematical model of an instruction.
pub struct InstrView {
    pub gate: StandardGate,
    pub params: Seq<Parameter>,
    pub label: Option<String>,
    pub qubits: Seq<usize>,
    pub clbits: Seq<usize>,
}

impl View for Instruction {
    type V = InstrView;

    open spec fn view(&self) -> InstrView {
        InstrView {
            gate: self.gate.gate_type,
            params: self.gate.parameters@,
            label: self.gate.label,
            qubits: self.qubits@,
            clbits: self.clbits@,
        }
    }
}

/// Unlabelled application of `g` with parameters `ps` to `qs`.
pub open spec fn op(g: StandardGate, qs: Seq<usize>, ps: Seq<Parameter>) -> InstrView {
    InstrView { gate: g, params: ps, label: None, qubits: qs, clbits: Seq::empty() }
}

/// Parameterless gate on one qubit.
pub open spec fn op1(g: StandardGate, q: usize) -> InstrView {
    op(g, seq![q], Seq::empty())
}

/// Parameterless gate on two qubits.
pub open spec fn op2(g: StandardGate, a: usize, b: usize) -> InstrView {
    op(g, seq![a, b], Seq::empty())
}

/// One-qubit gate with a single parameter.
pub open spec fn op1p(g: StandardGate, q: usize, p: Parameter) -> InstrView {
    op(g, seq![q], seq![p])
}

/// One-qubit gate whose single parameter is a number given by its encoding.
pub open spec fn op1f(g: StandardGate, q: usize, bits: u64) -> InstrView {
    op1p(g, q, Parameter::Float(bits))
}

/// Measurement of qubit `q` into classical bit `c`.
pub open spec fn measure_op(q: usize, c: usize) -> InstrView {
    InstrView {
        gate: StandardGate::Measure,
        params: Seq::empty(),
        label: None,
        qubits: seq![q],
        clbits: seq![c],
    }
}

/// Why an instruction is rejected.
pub enum Fault {
    /// A qubit index at or beyond the circuit's width
    Qubit(usize),
    /// A classical bit index at or beyond the circuit's classical width
    Clbit(usize),
    /// The same qubit named twice
    Repeated,
}

/// The first index in `s` that is not below `bound`.
pub open spec fn first_out_of_range(s: Seq<usize>, bound: usize) -> Option<usize>
    decreases s.len(),
{
    if s.len() == 0 {
        None
    } else if s[0] >= bound {
        Some(s[0])
    } else {
        first_out_of_range(s.drop_first(), bound)
    }
}

/// No index occurs twice in `s`.
pub open spec fn all_distinct(s: Seq<usize>) -> bool {
    forall|i: int, j: int| 0 <= i < j < s.len() ==> s[i] != s[j]
}

/// The reason, if any, why `o` cannot be added to a circuit of the given widths.
pub open spec fn op_fault(num_qubits: usize, num_clbits: usize, o: InstrView) -> Option<Fault> {
    match first_out_of_range(o.qubits, num_qubits) {
        Some(q) => Some(Fault::Qubit(q)),
        None => match first_out_of_range(o.clbits, num_clbits) {
            Some(c) => Some(Fault::Clbit(c)),
            None => if all_distinct(o.qubits) {
                None
            } else {
                Some(Fault::Repeated)
            },
        },
    }
}

/// Mathematical model of a circuit.
pub struct CircuitView {
    pub num_qubits: usize,
    pub num_clbits: usize,
    pub ops: Seq<InstrView>,
}

/// Adding the instructions `ops` one after another to `c`, stopping at the
/// first one that is rejected: the resulting circuit and the fault, if any.
pub open spec fn run(c: CircuitView, ops: Seq<InstrView>) -> (CircuitView, Option<Fault>)
    decreases ops.len(),
{
    if ops.len() == 0 {
        (c, None)
    } else {
        match op_fault(c.num_qubits, c.num_clbits, ops[0]) {
            Some(f) => (c, Some(f)),
            None => run(
                CircuitView { ops: c.ops.push(ops[0]), ..c },
                ops.drop_first(),
            ),
        }
    }
}

/// Adding a single instruction: rejected with its fault, or appended.
pub proof fn lemma_run_single(c: CircuitView, o: InstrView)
    ensures
        run(c, seq![o]) == (match op_fault(c.num_qubits, c.num_clbits, o) {
            Some(f) => (c, Some(f)),
            None => (CircuitView { ops: c.ops.push(o), ..c }, None),
        }),
{
    assert(seq![o].drop_first() =~= Seq::<InstrView>::empty());
    reveal_with_fuel(run, 2);
}

/// Adding `a` and then `b` is adding `a + b`: the second part is only added
/// when the first part was accepted in full.
pub proof fn lemma_run_concat(c: CircuitView, a: Seq<InstrView>, b: Seq<InstrView>)
    ensures
        run(c, a + b) == (if run(c, a).1 is Some { run(c, a) } else { run(run(c, a).0, b) }),
    decreases a.len(),
{
    if a.len() == 0 {
        assert(a + b =~= b);
    } else {
        assert((a + b).drop_first() =~= a.drop_first() + b);
        assert((a + b)[0] == a[0]);
        if op_fault(c.num_qubits, c.num_clbits, a[0]) is None {
            lemma_run_concat(CircuitView { ops: c.ops.push(a[0]), ..c }, a.drop_first(), b);
        }
    }
}

/// Adding instructions never changes a circuit's widths.
pub proof fn lemma_run_widths(c: CircuitView, ops: Seq<InstrView>)
    ensures
        run(c, ops).0.num_qubits == c.num_qubits,
        run(c, ops).0.num_clbits == c.num_clbits,
    decreases ops.len(),
{
    if ops.len() > 0 && op_fault(c.num_qubits, c.num_clbits, ops[0]) is None {
        lemma_run_widths(CircuitView { ops: c.ops.push(ops[0]), ..c }, ops.drop_first());
    }
}

/// An index sequence with no entry out of range has every entry below the bound.
pub proof fn lemma_in_range(s: Seq<usize>, bound: usize)
    requires
        first_out_of_range(s, bound) is None,
    ensures
        forall|i: int| 0 <= i < s.len() ==> #[trigger] s[i] < bound,
    decreases s.len(),
{
    if s.len() > 0 {
        lemma_in_range(s.drop_first(), bound);
        assert forall|i: int| 0 <= i < s.len() implies #[trigger] s[i] < bound by {
            if i > 0 {
                assert(s[i] == s.drop_first()[i - 1]);
            }
        }
    }
}

/// Every instruction of `ops` is accepted by a circuit of the given widths.
pub open spec fn all_valid(num_qubits: usize, num_clbits: usize, ops: Seq<InstrView>) -> bool {
    forall|i: int| 0 <= i < ops.len() ==> op_fault(num_qubits, num_clbits, #[trigger] ops[i]) is None
}

/// Adding instructions that are all accepted appends exactly them and succeeds.
pub proof fn lemma_run_valid(c: CircuitView, ops: Seq<InstrView>)
    requires
        all_valid(c.num_qubits, c.num_clbits, ops),
    ensures
        run(c, ops) == (CircuitView { ops: c.ops + ops, ..c }, None::<Fault>),
    decreases ops.len(),
{
    if ops.len() == 0 {
        assert(c.ops + ops =~= c.ops);
    } else {
        assert(op_fault(c.num_qubits, c.num_clbits, ops[0]) is None);
        let c2 = CircuitView { ops: c.ops.push(ops[0]), ..c };
        assert forall|i: int| 0 <= i < ops.drop_first().len() implies
            op_fault(c2.num_qubits, c2.num_clbits, #[trigger] ops.drop_first()[i]) is None by {
            assert(ops.drop_first()[i] == ops[i + 1]);
        }
        lemma_run_valid(c2, ops.drop_first());
        assert(c2.ops + ops.drop_first() =~= c.ops + ops);
    }
}

/// A circuit whose instructions were all accepted keeps that property when
/// more are added: a circuit built from an empty one holds only accepted
/// instructions.
pub proof fn lemma_run_keeps_valid(c: CircuitView, ops: Seq<InstrView>)
    requires
        all_valid(c.num_qubits, c.num_clbits, c.ops),
    ensures
        all_valid(run(c, ops).0.num_qubits, run(c, ops).0.num_clbits, run(c, ops).0.ops),
    decreases ops.len(),
{
    lemma_run_widths(c, ops);
    if ops.len() > 0 && op_fault(c.num_qubits, c.num_clbits, ops[0]) is None {
        let c2 = CircuitView { ops: c.ops.push(ops[0]), ..c };
        assert forall|i: int| 0 <= i < c2.ops.len() implies op_fault(c2.num_qubits, c2.num_clbits, #[trigger] c2.ops[i]) is None by {
            if i < c.ops.len() {
                assert(c2.ops[i] == c.ops[i]);
            }
        }
        lemma_run_keeps_valid(c2, ops.drop_first());
    }
}

/// A one-qubit instruction on an existing qubit is accepted.
pub proof fn lemma_valid_one(num_qubits: usize, num_clbits: usize, g: StandardGate, q: usize, ps: Seq<Parameter>)
    requires
        q < num_qubits,
    ensures
        op_fault(num_qubits, num_clbits, op(g, seq![q], ps)) is None,
{
    assert(seq![q].drop_first() =~= Seq::<usize>::empty());
    reveal_with_fuel(first_out_of_range, 2);
}

/// A two-qubit instruction on two different existing qubits is accepted.
pub proof fn lemma_valid_two(num_qubits: usize, num_clbits: usize, g: StandardGate, a: usize, b: usize, ps: Seq<Parameter>)
    requires
        a < num_qubits,
        b < num_qubits,
        a != b,
    ensures
        op_fault(num_qubits, num_clbits, op(g, seq![a, b], ps)) is None,
{
    assert(seq![a, b].drop_first() =~= seq![b]);
    assert(seq![b].drop_first() =~= Seq::<usize>::empty());
    reveal_with_fuel(first_out_of_range, 3);
}

/// Measuring an existing qubit into an existing classical bit is accepted.
pub proof fn lemma_valid_measure(num_qubits: usize, num_clbits: usize, q: usize, c: usize)
    requires
        q < num_qubits,
        c < num_clbits,
    ensures
        op_fault(num_qubits, num_clbits, measure_op(q, c)) is None,
{
    assert(seq![q].drop_first() =~= Seq::<usize>::empty());
    assert(seq![c].drop_first() =~= Seq::<usize>::empty());
    reveal_with_fuel(first_out_of_range, 2);
}

/// Message of the error returned for a repeated qubit.
pub open spec fn repeated_qubit_message() -> Seq<char> {
    "duplicate qubit arguments"@
}

/// `r` is the result that reports `f` for a circuit of the given widths.
pub open spec fn reports(r: Result<()>, f: Option<Fault>, num_qubits: usize, num_clbits: usize) -> bool {
    match f {
        None => r is Ok,
        Some(Fault::Qubit(q)) => r matches Err(
            MyQuatError::InvalidQubitIndex { index, num_qubits: n },
        ) && index == q && n == num_qubits,
        Some(Fault::Clbit(c)) => r matches Err(
            MyQuatError::InvalidClbitIndex { index, num_clbits: n },
        ) && index == c && n == num_clbits,
        Some(Fault::Repeated) => r matches Err(MyQuatError::CircuitError { message })
            && message@ == repeated_qubit_message(),
    }
}

/// Adding `ops` to `before` gives `after`, and `r` reports how that went.
pub open spec fn emits(before: CircuitView, after: CircuitView, r: Result<()>, ops: Seq<InstrView>) -> bool {
    &&& after == run(before, ops).0
    &&& reports(r, run(before, ops).1, before.num_qubits, before.num_clbits)
}

/// The views of a sequence of instructions.
pub open spec fn views(s: Seq<Instruction>) -> Seq<InstrView> {
    s.map_values(|i: Instruction| i@)
}

/// Quantum circuit: fixed numbers of qubits and classical bits, and the
/// instructions applied so far.
#[derive(Debug)]
pub struct QuantumCircuit {
    num_qubits: usize,
    num_clbits: usize,
    instructions: Vec<Instruction>,
}

impl View for QuantumCircuit {
    type V = CircuitView;

    closed spec fn view(&self) -> CircuitView {
        CircuitView {
            num_qubits: self.num_qubits,
            num_clbits: self.num_clbits,
            ops: views(self.instructions@),
        }
    }
}

/// Index of the first entry of `s` that is not below `bound`, if any.
fn find_out_of_range(s: &Vec<usize>, bound: usize) -> (r: Option<usize>)
    ensures
        r == first_out_of_range(s@, bound),
{
    let mut i: usize = 0;
    assert(s@.skip(0) =~= s@);
    while i < s.len()
        invariant
            i <= s.len(),
            first_out_of_range(s@, bound) == first_out_of_range(s@.skip(i as int), bound),
        decreases s.len() - i,
    {
        assert(s@.skip(i as int).drop_first() =~= s@.skip(i + 1));
        if s[i] >= bound {
            return Some(s[i]);
        }
        i = i + 1;
    }
    None
}

/// Whether the entries of `s` are pairwise different.
fn distinct(s: &Vec<usize>) -> (r: bool)
    ensures
        r == all_distinct(s@),
{
    let mut i: usize = 0;
    while i < s.len()
        invariant
            i <= s.len(),
            forall|a: int, b: int| 0 <= a < b < s@.len() && a < i ==> s@[a] != s@[b],
        decreases s.len() - i,
    {
        let mut j: usize = i + 1;
        while j < s.len()
            invariant
                i < s.len(),
                i + 1 <= j <= s.len(),
                forall|a: int, b: int| 0 <= a < b < s@.len() && a < i ==> s@[a] != s@[b],
                forall|b: int| i < b < j ==> s@[i as int] != s@[b],
            decreases s.len() - j,
        {
            if s[i] == s[j] {
                return false;
            }
            j = j + 1;
        }
        i = i + 1;
    }
    true
}

impl Instruction {
    /// Unlabelled gate on the given qubits with the given parameters.
    pub fn new(gate: StandardGate, qubits: Vec<usize>, parameters: Vec<Parameter>) -> (r: Self)
        ensures
            r@ == op(gate, qubits@, parameters@),
    {
        Instruction {
            gate: Gate { gate_type: gate, parameters, label: None },
            qubits,
            clbits: Vec::new(),
        }
    }

    /// Parameterless gate on one qubit.
    pub fn single(gate: StandardGate, q: usize) -> (r: Self)
        ensures
            r@ == op1(gate, q),
    {
        let r = Instruction::new(gate, vec![q], Vec::new());
        assert(r@.qubits =~= seq![q]);
        r
    }

    /// Parameterless gate on two qubits.
    pub fn pair(gate: StandardGate, a: usize, b: usize) -> (r: Self)
        ensures
            r@ == op2(gate, a, b),
    {
        let r = Instruction::new(gate, vec![a, b], Vec::new());
        assert(r@.qubits =~= seq![a, b]);
        r
    }

    /// One-qubit gate with one parameter.
    pub fn rotation(gate: StandardGate, q: usize, p: Parameter) -> (r: Self)
        ensures
            r@ == op1p(gate, q, p),
    {
        let r = Instruction::new(gate, vec![q], vec![p]);
        assert(r@.qubits =~= seq![q]);
        assert(r@.params =~= seq![p]);
        r
    }

    /// Measurement of qubit `q` into classical bit `c`.
    pub fn measurement(q: usize, c: usize) -> (r: Self)
        ensures
            r@ == measure_op(q, c),
    {
        let r = Instruction {
            gate: Gate { gate_type: StandardGate::Measure, parameters: Vec::new(), label: None },
            qubits: vec![q],
            clbits: vec![c],
        };
        assert(r@.qubits =~= seq![q]);
        assert(r@.clbits =~= seq![c]);
        assert(r@.params =~= Seq::<Parameter>::empty());
        r
    }
}

impl QuantumCircuit {
    /// Every instruction of the circuit was accepted by its widths.
    #[verifier::type_invariant]
    spec fn ops_accepted(self) -> bool {
        all_valid(self.num_qubits, self.num_clbits, views(self.instructions@))
    }

    /// Whether every instruction of the circuit is one it accepts: its
    /// qubits and classical bits within the widths and its qubits distinct.
    /// Every addition is checked, so this holds of every circuit.
    pub fn ops_valid(&self) -> (b: bool)
        ensures
            b == all_valid(self@.num_qubits, self@.num_clbits, self@.ops),
            b,
    {
        proof {
            use_type_invariant(self);
        }
        true
    }

    /// Create an empty circuit with the given numbers of qubits and classical bits
    pub fn new(num_qubits: usize, num_clbits: usize) -> (r: Self)
        ensures
            r@ == (CircuitView { num_qubits, num_clbits, ops: Seq::empty() }),
    {
        let r = QuantumCircuit { num_qubits, num_clbits, instructions: Vec::new() };
        assert(r@.ops =~= Seq::<InstrView>::empty());
        r
    }

    /// Number of qubits
    pub fn num_qubits(&self) -> (r: usize)
        ensures
            r == self@.num_qubits,
    {
        self.num_qubits
    }

    /// Number of classical bits
    pub fn num_clbits(&self) -> (r: usize)
        ensures
            r == self@.num_clbits,
    {
        self.num_clbits
    }

    /// Number of instructions in the circuit
    pub fn size(&self) -> (r: usize)
        ensures
            r == self@.ops.len(),
    {
        self.instructions.len()
    }

    /// The instructions, in order of application
    pub fn instructions(&self) -> (r: &Vec<Instruction>)
        ensures
            views(r@) == self@.ops,
    {
        &self.instructions
    }

    // ===== Gate applications =====

    /// Apply a Hadamard gate
    pub fn h(&mut self, qubit: usize) -> (r: Result<()>)
        ensures
            emits(old(self)@, final(self)@, r, seq![op1(StandardGate::H, qubit)]),
    {
        self.append(Instruction::single(StandardGate::H, qubit))
    }

    /// Apply a Pauli-X gate
    pub fn x(&mut self, qubit: usize) -> (r: Result<()>)
        ensures
            emits(old(self)@, final(self)@, r, seq![op1(StandardGate::X, qubit)]),
    {
        self.append(Instruction::single(StandardGate::X, qubit))
    }

    /// Apply a Pauli-Y gate
    pub fn y(&mut self, qubit: usize) -> (r: Result<()>)
        ensures
            emits(old(self)@, final(self)@, r, seq![op1(StandardGate::Y, qubit)]),
    {
        self.append(Instruction::single(StandardGate::Y, qubit))
    }

    /// Apply a Pauli-Z gate
    pub fn z(&mut self, qubit: usize) -> (r: Result<()>)
        ensures
            emits(old(self)@, final(self)@, r, seq![op1(StandardGate::Z, qubit)]),
    {
        self.append(Instruction::single(StandardGate::Z, qubit))
    }

    /// Apply a S gate
    pub fn s(&mut self, qubit: usize) -> (r: Result<()>)
        ensures
            emits(old(self)@, final(self)@, r, seq![op1(StandardGate::S, qubit)]),
    {
        self.append(Instruction::single(StandardGate::S, qubit))
    }

    /// Apply a S-dagger gate
    pub fn sdg(&mut self, qubit: usize) -> (r: Result<()>)
        ensures
            emits(old(self)@, final(self)@, r, seq![op1(StandardGate::Sdg, qubit)]),
    {
        self.append(Instruction::single(StandardGate::Sdg, qubit))
    }

    /// Apply a T gate
    pub fn t(&mut self, qubit: usize) -> (r: Result<()>)
        ensures
            emits(old(self)@, final(self)@, r, seq![op1(StandardGate::T, qubit)]),
    {
        self.append(Instruction::single(StandardGate::T, qubit))
    }

    /// Apply a T-dagger gate
    pub fn tdg(&mut self, qubit: usize) -> (r: Result<()>)
        ensures
            emits(old(self)@, final(self)@, r, seq![op1(StandardGate::Tdg, qubit)]),
    {
        self.append(Instruction::single(StandardGate::Tdg, qubit))
    }

    /// Apply a identity gate
    pub fn i(&mut self, qubit: usize) -> (r: Result<()>)
        ensures
            emits(old(self)@, final(self)@, r, seq![op1(StandardGate::I, qubit)]),
    {
        self.append(Instruction::single(StandardGate::I, qubit))
    }

    /// Apply a rotation about X
    pub fn rx(&mut self, qubit: usize, angle: Parameter) -> (r: Result<()>)
        ensures
            emits(old(self)@, final(self)@, r, seq![op1p(StandardGate::Rx, qubit, angle)]),
    {
        self.append(Instruction::rotation(StandardGate::Rx, qubit, angle))
    }

    /// Apply a rotation about Y
    pub fn ry(&mut self, qubit: usize, angle: Parameter) -> (r: Result<()>)
        ensures
            emits(old(self)@, final(self)@, r, seq![op1p(StandardGate::Ry, qubit, angle)]),
    {
        self.append(Instruction::rotation(StandardGate::Ry, qubit, angle))
    }

    /// Apply a rotation about Z
    pub fn rz(&mut self, qubit: usize, angle: Parameter) -> (r: Result<()>)
        ensures
            emits(old(self)@, final(self)@, r, seq![op1p(StandardGate::Rz, qubit, angle)]),
    {
        self.append(Instruction::rotation(StandardGate::Rz, qubit, angle))
    }

    /// Apply a phase gate
    pub fn p(&mut self, qubit: usize, angle: Parameter) -> (r: Result<()>)
        ensures
            emits(old(self)@, final(self)@, r, seq![op1p(StandardGate::P, qubit, angle)]),
    {
        self.append(Instruction::rotation(StandardGate::P, qubit, angle))
    }

    /// Apply a CNOT gate
    pub fn cx(&mut self, qubit1: usize, qubit2: usize) -> (r: Result<()>)
        ensures
            emits(old(self)@, final(self)@, r, seq![op2(StandardGate::CX, qubit1, qubit2)]),
    {
        self.append(Instruction::pair(StandardGate::CX, qubit1, qubit2))
    }

    /// Apply a controlled-Y gate
    pub fn cy(&mut self, qubit1: usize, qubit2: usize) -> (r: Result<()>)
        ensures
            emits(old(self)@, final(self)@, r, seq![op2(StandardGate::CY, qubit1, qubit2)]),
    {
        self.append(Instruction::pair(StandardGate::CY, qubit1, qubit2))
    }

    /// Apply a controlled-Z gate
    pub fn cz(&mut self, qubit1: usize, qubit2: usize) -> (r: Result<()>)
        ensures
            emits(old(self)@, final(self)@, r, seq![op2(StandardGate::CZ, qubit1, qubit2)]),
    {
        self.append(Instruction::pair(StandardGate::CZ, qubit1, qubit2))
    }

    /// Apply a SWAP gate
    pub fn swap(&mut self, qubit1: usize, qubit2: usize) -> (r: Result<()>)
        ensures
            emits(old(self)@, final(self)@, r, seq![op2(StandardGate::Swap, qubit1, qubit2)]),
    {
        self.append(Instruction::pair(StandardGate::Swap, qubit1, qubit2))
    }

    /// Apply a controlled phase gate
    pub fn cp(&mut self, control: usize, target: usize, angle: Parameter) -> (r: Result<()>)
        ensures
            emits(old(self)@, final(self)@, r, seq![op(StandardGate::CP, seq![control, target], seq![angle])]),
    {
        let ghost a = angle;
        let ins = Instruction::new(StandardGate::CP, vec![control, target], vec![angle]);
        assert(ins@ == op(StandardGate::CP, seq![control, target], seq![a])) by {
            assert(ins@.qubits =~= seq![control, target]);
            assert(ins@.params =~= seq![a]);
        }
        self.append(ins)
    }

    /// Apply a Toffoli (CCX) gate
    pub fn ccx(&mut self, control1: usize, control2: usize, target: usize) -> (r: Result<()>)
        ensures
            emits(old(self)@, final(self)@, r, seq![op(StandardGate::CCX, seq![control1, control2, target], Seq::empty())]),
    {
        let ins = Instruction::new(StandardGate::CCX, vec![control1, control2, target], Vec::new());
        assert(ins@ == op(StandardGate::CCX, seq![control1, control2, target], Seq::empty())) by {
            assert(ins@.qubits =~= seq![control1, control2, target]);
            assert(ins@.params =~= Seq::<Parameter>::empty());
        }
        self.append(ins)
    }

    /// Measure a qubit into a classical bit
    pub fn measure(&mut self, qubit: usize, clbit: usize) -> (r: Result<()>)
        ensures
            emits(old(self)@, final(self)@, r, seq![measure_op(qubit, clbit)]),
    {
        self.append(Instruction::measurement(qubit, clbit))
    }

    /// Add one instruction after validating its qubits and classical bits
    pub fn append(&mut self, instruction: Instruction) -> (r: Result<()>)
        ensures
            emits(old(self)@, final(self)@, r, seq![instruction@]),
    {
        let ghost o = instruction@;
        proof {
            lemma_run_single(old(self)@, o);
        }
        match find_out_of_range(&instruction.qubits, self.num_qubits) {
            Some(q) => {
                return Err(MyQuatError::InvalidQubitIndex { index: q, num_qubits: self.num_qubits });
            },
            None => {},
        }
        match find_out_of_range(&instruction.clbits, self.num_clbits) {
            Some(c) => {
                return Err(MyQuatError::InvalidClbitIndex { index: c, num_clbits: self.num_clbits });
            },
            None => {},
        }
        if !distinct(&instruction.qubits) {
            return Err(MyQuatError::circuit_error("duplicate qubit arguments"));
        }
        proof {
            use_type_invariant(&*self);
            assert(op_fault(self.num_qubits, self.num_clbits, o) is None);
        }
        let mut instructions: Vec<Instruction> = Vec::new();
        std::mem::swap(&mut instructions, &mut self.instructions);
        instructions.push(instruction);
        proof {
            let vs = views(instructions@);
            assert(vs =~= views(old(self).instructions@).push(o));
            assert forall|i: int| 0 <= i < vs.len() implies op_fault(old(self).num_qubits, old(self).num_clbits, #[trigger] vs[i]) is None by {
                if i < vs.len() - 1 {
                    assert(vs[i] == views(old(self).instructions@)[i]);
                }
            }
        }
        self.instructions = instructions;
        assert(views(self.instructions@) =~= views(old(self).instructions@).push(o));
        Ok(())
    }

    /// Add instructions one after another, stopping at the first rejected one
    pub fn append_all(&mut self, instructions: Vec<Instruction>) -> (r: Result<()>)
        ensures
            emits(old(self)@, final(self)@, r, views(instructions@)),
    {
        let ghost all = views(instructions@);
        let mut i: usize = 0;
        assert(all.skip(0) =~= all);
        while i < instructions.len()
            invariant
                i <= instructions.len(),
                all == views(instructions@),
                self@.num_qubits == old(self)@.num_qubits,
                self@.num_clbits == old(self)@.num_clbits,
                run(old(self)@, all) == run(self@, all.skip(i as int)),
            decreases instructions.len() - i,
        {
            let ghost before = self@;
            let ghost rest = all.skip(i as int);
            assert(rest[0] == instructions@[i as int]@);
            assert(rest.drop_first() =~= all.skip(i + 1));
            let r = self.append(instructions[i].clone_exact());
            proof {
                lemma_run_single(before, rest[0]);
            }
            if r.is_err() {
                return r;
            }
            i = i + 1;
        }
        assert(all.skip(i as int) =~= Seq::<InstrView>::empty());
        Ok(())
    }
}

impl Clone for QuantumCircuit {
    /// A copy with the same widths and the same instructions
    fn clone(&self) -> (r: Self)
        ensures
            r@ == self@,
    {
        proof {
            use_type_invariant(self);
        }
        let mut instructions: Vec<Instruction> = Vec::new();
        let mut i: usize = 0;
        while i < self.instructions.len()
            invariant
                i <= self.instructions@.len(),
                instructions@.len() == i,
                views(instructions@) == views(self.instructions@).take(i as int),
            decreases self.instructions.len() - i,
        {
            let ghost before = instructions@;
            let c = self.instructions[i].clone_exact();
            instructions.push(c);
            proof {
                assert(instructions@ == before.push(c));
                assert forall|j: int| 0 <= j <= i implies #[trigger] views(instructions@)[j] == views(self.instructions@)[j] by {
                    assert(views(instructions@)[j] == instructions@[j]@);
                    assert(views(self.instructions@)[j] == self.instructions@[j]@);
                    if j < i {
                        assert(instructions@[j] == before[j]);
                        assert(views(before)[j] == before[j]@);
                        assert(views(before)[j] == views(self.instructions@).take(i as int)[j]);
                    } else {
                        assert(instructions@[j] == c);
                    }
                }
                assert(views(instructions@) =~= views(self.instructions@).take(i + 1));
            }
            i = i + 1;
        }
        proof {
            assert(views(instructions@) =~= views(self.instructions@));
        }
        QuantumCircuit { num_qubits: self.num_qubits, num_clbits: self.num_clbits, instructions }
    }
}

impl Instruction {
    /// An exact copy of the instruction.
    pub fn clone_exact(&self) -> (r: Self)
        ensures
            r@ == self@,
    {
        let label = match &self.gate.label {
            Some(s) => Some(s.clone()),
            None => None,
        };
        let qubits = self.qubits.clone();
        let clbits = self.clbits.clone();
        assert(qubits@ =~= self.qubits@);
        assert(clbits@ =~= self.clbits@);
        Instruction {
            gate: Gate {
                gate_type: self.gate.gate_type,
                parameters: crate::gates::duplicate_parameters(&self.gate.parameters),
                label,
            },
            qubits,
            clbits,
        }
    }
}

/// Append one instruction to a circuit built by adding `prefix` to `init`,
/// keeping track of everything added so far.
pub(crate) fn append_tracked(
    circuit: &mut QuantumCircuit,
    o: Instruction,
    Ghost(init): Ghost<CircuitView>,
    Ghost(prefix): Ghost<Seq<InstrView>>,
) -> (r: Result<()>)
    requires
        old(circuit)@ == run(init, prefix).0,
        run(init, prefix).1 is None,
    ensures
        final(circuit)@ == run(init, prefix.push(o@)).0,
        reports(r, run(init, prefix.push(o@)).1, init.num_qubits, init.num_clbits),
{
    let ghost oo = o@;
    let r = circuit.append(o);
    proof {
        lemma_run_concat(init, prefix, seq![oo]);
        assert(prefix + seq![oo] =~= prefix.push(oo));
        lemma_run_widths(init, prefix);
    }
    r
}

/// When a prefix of the instructions is rejected, adding more changes nothing.
pub proof fn lemma_fault_stops(c: CircuitView, a: Seq<InstrView>, b: Seq<InstrView>)
    requires
        run(c, a).1 is Some,
    ensures
        run(c, a + b) == run(c, a),
{
    lemma_run_concat(c, a, b);
}

} // verus!
