//! Conditional operations and classical control
//!
//! Conditions on classical bits and named registers, the classical state
//! they are evaluated against, gates guarded by a condition, and an executor
//! that adds the gates whose conditions hold to a circuit.

use vstd::prelude::*;
use crate::circuit::{emits, measure_op, op1, op1p, op2, views, InstrView, Instruction, QuantumCircuit};
use crate::error::{is_circuit_error, MyQuatError, Result};
use crate::gates::{gate_name_spec, Parameter, StandardGate};
use crate::text::{first_position, is_first, lemma_first_exists, lemma_first_position};

verus! {

/// Classical condition for conditional operations
#[derive(Debug, PartialEq)]
pub enum ClassicalCondition {
    /// Condition based on a single classical bit
    BitEquals { bit_index: usize, value: u8 },
    /// Condition based on classical register value
    RegisterEquals { register_name: String, value: u64 },
    /// Condition based on register comparison
    RegisterGreater { register_name: String, value: u64 },
    /// Condition based on register less than
    RegisterLess { register_name: String, value: u64 },
    /// Logical AND of two conditions
    And(Box<ClassicalCondition>, Box<ClassicalCondition>),
    /// Logical OR of two conditions
    Or(Box<ClassicalCondition>, Box<ClassicalCondition>),
    /// Logical NOT of a condition
    Not(Box<ClassicalCondition>),
}

/// Mathematical model of a classical state: bit values and register values by name.
pub struct StateView {
    pub bits: Seq<u8>,
    pub registers: Map<Seq<char>, u64>,
}

/// Value of bit `i`, reading 0 for a bit the state does not have.
pub open spec fn bit_or_zero(s: StateView, i: usize) -> u8 {
    if i < s.bits.len() { s.bits[i as int] } else { 0 }
}

/// Value of register `name`, reading 0 for a register the state does not have.
pub open spec fn register_or_zero(s: StateView, name: Seq<char>) -> u64 {
    if s.registers.dom().contains(name) { s.registers[name] } else { 0 }
}

/// Whether condition `c` holds in state `s`.
pub open spec fn holds(c: ClassicalCondition, s: StateView) -> bool
    decreases c,
{
    match c {
        ClassicalCondition::BitEquals { bit_index, value } => bit_or_zero(s, bit_index) == value,
        ClassicalCondition::RegisterEquals { register_name, value } => register_or_zero(s, register_name@) == value,
        ClassicalCondition::RegisterGreater { register_name, value } => register_or_zero(s, register_name@) > value,
        ClassicalCondition::RegisterLess { register_name, value } => register_or_zero(s, register_name@) < value,
        ClassicalCondition::And(l, r) => holds(*l, s) && holds(*r, s),
        ClassicalCondition::Or(l, r) => holds(*l, s) || holds(*r, s),
        ClassicalCondition::Not(x) => !holds(*x, s),
    }
}

/// Negating a condition twice gives a condition that holds exactly when it does.
pub proof fn law_double_negation(c: ClassicalCondition, s: StateView)
    ensures
        holds(ClassicalCondition::Not(Box::new(ClassicalCondition::Not(Box::new(c)))), s) == holds(c, s),
{
    reveal_with_fuel(holds, 3);
}

/// The negation of a conjunction holds exactly when the disjunction of the
/// negations does.
pub proof fn law_de_morgan(a: ClassicalCondition, b: ClassicalCondition, s: StateView)
    ensures
        holds(ClassicalCondition::Not(Box::new(ClassicalCondition::And(Box::new(a), Box::new(b)))), s)
            == holds(ClassicalCondition::Or(
                Box::new(ClassicalCondition::Not(Box::new(a))),
                Box::new(ClassicalCondition::Not(Box::new(b))),
            ), s),
{
    reveal_with_fuel(holds, 3);
}

/// Conditions see what was written: after bit `i` of the state is set to
/// `v`, the condition that bit `i` equals `v` holds; after register `name`
/// is set to `w`, the condition that it equals `w` holds.
pub proof fn law_conditions_read_writes(s: StateView, i: usize, v: u8, name: String, w: u64)
    requires
        i < s.bits.len(),
    ensures
        holds(ClassicalCondition::BitEquals { bit_index: i, value: v }, StateView { bits: s.bits.update(i as int, v), ..s }),
        holds(
            ClassicalCondition::RegisterEquals { register_name: name, value: w },
            StateView { registers: s.registers.insert(name@, w), ..s },
        ),
{
}

impl Clone for ClassicalCondition {
    fn clone(&self) -> (r: Self)
        ensures
            r == *self,
        decreases self,
    {
        match self {
            ClassicalCondition::BitEquals { bit_index, value } => ClassicalCondition::BitEquals {
                bit_index: *bit_index,
                value: *value,
            },
            ClassicalCondition::RegisterEquals { register_name, value } => ClassicalCondition::RegisterEquals {
                register_name: register_name.clone(),
                value: *value,
            },
            ClassicalCondition::RegisterGreater { register_name, value } => ClassicalCondition::RegisterGreater {
                register_name: register_name.clone(),
                value: *value,
            },
            ClassicalCondition::RegisterLess { register_name, value } => ClassicalCondition::RegisterLess {
                register_name: register_name.clone(),
                value: *value,
            },
            ClassicalCondition::And(l, r) => {
                let a: ClassicalCondition = (**l).clone();
                let b: ClassicalCondition = (**r).clone();
                ClassicalCondition::And(Box::new(a), Box::new(b))
            },
            ClassicalCondition::Or(l, r) => {
                let a: ClassicalCondition = (**l).clone();
                let b: ClassicalCondition = (**r).clone();
                ClassicalCondition::Or(Box::new(a), Box::new(b))
            },
            ClassicalCondition::Not(x) => {
                let a: ClassicalCondition = (**x).clone();
                ClassicalCondition::Not(Box::new(a))
            },
        }
    }
}

impl ClassicalCondition {
    /// Create a condition for a single bit
    pub fn bit_equals(bit_index: usize, value: u8) -> (r: Self)
        ensures
            r == (ClassicalCondition::BitEquals { bit_index, value }),
    {
        ClassicalCondition::BitEquals { bit_index, value }
    }

    /// Create a condition for register equality
    pub fn register_equals(register_name: String, value: u64) -> (r: Self)
        ensures
            r == (ClassicalCondition::RegisterEquals { register_name, value }),
    {
        ClassicalCondition::RegisterEquals { register_name, value }
    }

    /// Create a condition for register greater than
    pub fn register_greater(register_name: String, value: u64) -> (r: Self)
        ensures
            r == (ClassicalCondition::RegisterGreater { register_name, value }),
    {
        ClassicalCondition::RegisterGreater { register_name, value }
    }

    /// Create a condition for register less than
    pub fn register_less(register_name: String, value: u64) -> (r: Self)
        ensures
            r == (ClassicalCondition::RegisterLess { register_name, value }),
    {
        ClassicalCondition::RegisterLess { register_name, value }
    }

    /// Combine two conditions with AND
    pub fn and(self, other: ClassicalCondition) -> (r: Self)
        ensures
            r == ClassicalCondition::And(Box::new(self), Box::new(other)),
    {
        ClassicalCondition::And(Box::new(self), Box::new(other))
    }

    /// Combine two conditions with OR
    pub fn or(self, other: ClassicalCondition) -> (r: Self)
        ensures
            r == ClassicalCondition::Or(Box::new(self), Box::new(other)),
    {
        ClassicalCondition::Or(Box::new(self), Box::new(other))
    }

    /// Negate a condition
    pub fn not(self) -> (r: Self)
        ensures
            r == ClassicalCondition::Not(Box::new(self)),
    {
        ClassicalCondition::Not(Box::new(self))
    }

    /// Evaluate the condition against classical state
    pub fn evaluate(&self, classical_state: &ClassicalState) -> (r: bool)
        ensures
            r == holds(*self, classical_state@),
        decreases self,
    {
        match self {
            ClassicalCondition::BitEquals { bit_index, value } => {
                let b = match classical_state.get_bit(*bit_index) {
                    Some(b) => b,
                    None => 0,
                };
                b == *value
            },
            ClassicalCondition::RegisterEquals { register_name, value } => {
                let v = match classical_state.get_register(register_name.as_str()) {
                    Some(v) => v,
                    None => 0,
                };
                v == *value
            },
            ClassicalCondition::RegisterGreater { register_name, value } => {
                let v = match classical_state.get_register(register_name.as_str()) {
                    Some(v) => v,
                    None => 0,
                };
                v > *value
            },
            ClassicalCondition::RegisterLess { register_name, value } => {
                let v = match classical_state.get_register(register_name.as_str()) {
                    Some(v) => v,
                    None => 0,
                };
                v < *value
            },
            ClassicalCondition::And(left, right) => {
                let a = left.evaluate(classical_state);
                let b = right.evaluate(classical_state);
                a && b
            },
            ClassicalCondition::Or(left, right) => {
                let a = left.evaluate(classical_state);
                let b = right.evaluate(classical_state);
                a || b
            },
            ClassicalCondition::Not(condition) => !condition.evaluate(classical_state),
        }
    }
}

/// The names of the registers, in order.
pub open spec fn register_names(regs: Seq<(String, u64)>) -> Seq<Seq<char>> {
    regs.map_values(|p: (String, u64)| p.0@)
}

/// Registers as a map from name to value; where a name occurs more than
/// once, its first entry counts.
pub open spec fn register_map(regs: Seq<(String, u64)>) -> Map<Seq<char>, u64> {
    Map::new(
        |k: Seq<char>| register_names(regs).contains(k),
        |k: Seq<char>| regs[first_position(register_names(regs), k)].1,
    )
}

/// Classical state for condition evaluation
#[derive(Debug)]
pub struct ClassicalState {
    /// Individual classical bits
    bits: Vec<u8>,
    /// Named classical registers
    registers: Vec<(String, u64)>,
}

impl Clone for ClassicalState {
    /// A copy with the same bits and the same registers
    fn clone(&self) -> (r: Self)
        ensures
            r@ == self@,
    {
        proof {
            use_type_invariant(self);
        }
        let mut registers: Vec<(String, u64)> = Vec::new();
        let mut i: usize = 0;
        while i < self.registers.len()
            invariant
                i <= self.registers@.len(),
                registers@ == self.registers@.take(i as int),
            decreases self.registers.len() - i,
        {
            let name = self.registers[i].0.clone();
            registers.push((name, self.registers[i].1));
            proof {
                assert(registers@ =~= self.registers@.take(i + 1));
            }
            i = i + 1;
        }
        proof {
            assert(registers@ =~= self.registers@);
        }
        ClassicalState { bits: self.bits.clone(), registers }
    }
}

impl View for ClassicalState {
    type V = StateView;

    closed spec fn view(&self) -> StateView {
        StateView { bits: self.bits@, registers: register_map(self.registers@) }
    }
}

impl ClassicalState {
    /// No register name occurs twice.
    #[verifier::type_invariant]
    spec fn names_distinct(self) -> bool {
        register_names(self.registers@).no_duplicates()
    }

    /// Create a new classical state with all bits 0 and no registers
    pub fn new(num_bits: usize) -> (r: Self)
        ensures
            r@.bits == Seq::new(num_bits as nat, |i: int| 0u8),
            r@.registers == Map::<Seq<char>, u64>::empty(),
    {
        let r = ClassicalState { bits: vec![0u8; num_bits], registers: Vec::new() };
        assert(r@.bits =~= Seq::new(num_bits as nat, |i: int| 0u8));
        assert(r@.registers =~= Map::<Seq<char>, u64>::empty());
        r
    }

    /// Set a classical bit
    pub fn set_bit(&mut self, index: usize, value: u8) -> (r: Result<()>)
        ensures
            old(self)@.registers == final(self)@.registers,
            index >= old(self)@.bits.len() ==> final(self)@ == old(self)@
                && (r matches Err(e) && is_circuit_error(e, "Bit index out of range"@)),
            index < old(self)@.bits.len() && value > 1 ==> final(self)@ == old(self)@
                && (r matches Err(e) && is_circuit_error(e, "Bit value must be 0 or 1"@)),
            index < old(self)@.bits.len() && value <= 1 ==> r is Ok
                && final(self)@.bits == old(self)@.bits.update(index as int, value),
    {
        if index >= self.bits.len() {
            return Err(MyQuatError::circuit_error("Bit index out of range"));
        }
        if value > 1 {
            return Err(MyQuatError::circuit_error("Bit value must be 0 or 1"));
        }
        proof {
            use_type_invariant(&*self);
        }
        let mut bits: Vec<u8> = Vec::new();
        std::mem::swap(&mut bits, &mut self.bits);
        bits.set(index, value);
        self.bits = bits;
        Ok(())
    }

    /// Get a classical bit
    pub fn get_bit(&self, index: usize) -> (r: Option<u8>)
        ensures
            r == (if index < self@.bits.len() { Some(self@.bits[index as int]) } else { None }),
    {
        if index < self.bits.len() {
            Some(self.bits[index])
        } else {
            None
        }
    }

    /// First position of the register called `name`, if any.
    fn find_register(&self, name: &String) -> (r: Option<usize>)
        ensures
            match r {
                Some(i) => is_first(register_names(self.registers@), name@, i as int),
                None => !register_names(self.registers@).contains(name@),
            },
    {
        let ghost names = register_names(self.registers@);
        let mut i: usize = 0;
        while i < self.registers.len()
            invariant
                i <= self.registers@.len(),
                names == register_names(self.registers@),
                forall|j: int| 0 <= j < i ==> names[j] != name@,
            decreases self.registers.len() - i,
        {
            if self.registers[i].0 == *name {
                return Some(i);
            }
            i = i + 1;
        }
        None
    }

    /// Set a classical register
    pub fn set_register(&mut self, name: String, value: u64)
        ensures
            final(self)@.bits == old(self)@.bits,
            final(self)@.registers == old(self)@.registers.insert(name@, value),
    {
        proof {
            use_type_invariant(&*self);
        }
        let ghost old_regs = self.registers@;
        let ghost old_names = register_names(old_regs);
        let ghost k = name@;
        let found = self.find_register(&name);
        let mut registers: Vec<(String, u64)> = Vec::new();
        std::mem::swap(&mut registers, &mut self.registers);
        match found {
            Some(i) => {
                registers.set(i, (name, value));
                proof {
                    let regs = registers@;
                    let names = register_names(regs);
                    assert(names =~= old_names);
                    assert forall|key: Seq<char>| #[trigger] register_map(regs).dom().contains(key)
                        implies register_map(regs)[key] == register_map(old_regs).insert(k, value)[key] by {
                        let j = choose|j: int| 0 <= j < names.len() && names[j] == key;
                        lemma_first_exists(names, key, j);
                        let f = choose|f: int| is_first(names, key, f);
                        lemma_first_position(names, key, f);
                        if key == k {
                            lemma_first_position(names, key, i as int);
                        }
                    }
                    assert(register_map(regs) =~= register_map(old_regs).insert(k, value));
                }
            },
            None => {
                registers.push((name, value));
                proof {
                    let regs = registers@;
                    let names = register_names(regs);
                    assert(names =~= old_names.push(k));
                    assert forall|key: Seq<char>| #![auto] register_map(regs).dom().contains(key)
                        == register_map(old_regs).insert(k, value).dom().contains(key) by {
                        if key != k && old_names.contains(key) {
                            let j = choose|j: int| 0 <= j < old_names.len() && old_names[j] == key;
                            assert(names[j] == key);
                        }
                        if key == k {
                            assert(names[names.len() - 1] == key);
                        }
                        if names.contains(key) && key != k {
                            let j = choose|j: int| 0 <= j < names.len() && names[j] == key;
                            assert(old_names[j] == key);
                        }
                    }
                    assert forall|key: Seq<char>| #[trigger] register_map(regs).dom().contains(key)
                        implies register_map(regs)[key] == register_map(old_regs).insert(k, value)[key] by {
                        if key == k {
                            assert(is_first(names, k, old_names.len() as int));
                            lemma_first_position(names, k, old_names.len() as int);
                        } else {
                            let j = choose|j: int| 0 <= j < old_names.len() && old_names[j] == key;
                            lemma_first_exists(old_names, key, j);
                            let f = choose|f: int| is_first(old_names, key, f);
                            lemma_first_position(old_names, key, f);
                            assert(is_first(names, key, f));
                            lemma_first_position(names, key, f);
                        }
                    }
                    assert(register_map(regs) =~= register_map(old_regs).insert(k, value));
                }
            },
        }
        proof {
            let names = register_names(registers@);
            match found {
                Some(i) => assert(names =~= old_names),
                None => assert(names =~= old_names.push(k)),
            }
        }
        self.registers = registers;
    }

    /// Get a classical register value
    pub fn get_register(&self, name: &str) -> (r: Option<u64>)
        ensures
            r == (if self@.registers.dom().contains(name@) { Some(self@.registers[name@]) } else { None }),
    {
        let key = String::from_str(name);
        match self.find_register(&key) {
            Some(i) => {
                proof {
                    lemma_first_position(register_names(self.registers@), name@, i as int);
                }
                Some(self.registers[i].1)
            },
            None => None,
        }
    }

    /// Get all bits
    pub fn bits(&self) -> (r: &[u8])
        ensures
            r@ == self@.bits,
    {
        self.bits.as_slice()
    }

    /// Get all registers, as (name, value) pairs
    pub fn registers(&self) -> (r: &Vec<(String, u64)>)
        ensures
            register_map(r@) == self@.registers,
            register_names(r@).no_duplicates(),
    {
        proof {
            use_type_invariant(self);
        }
        &self.registers
    }
}

/// Conditional gate operation
#[derive(Debug, Clone)]
pub struct ConditionalGate {
    /// Gate kind to apply conditionally
    pub gate: StandardGate,
    /// Target qubits
    pub qubits: Vec<usize>,
    /// Gate parameters (if any)
    pub parameters: Vec<Parameter>,
    /// Condition that must be satisfied
    pub condition: ClassicalCondition,
}

impl ConditionalGate {
    /// Create a new conditional gate
    pub fn new(
        gate: StandardGate,
        qubits: Vec<usize>,
        parameters: Vec<Parameter>,
        condition: ClassicalCondition,
    ) -> (r: Self)
        ensures
            r == (ConditionalGate { gate, qubits, parameters, condition }),
    {
        ConditionalGate { gate, qubits, parameters, condition }
    }

    /// Whether this operation applies in the given classical state
    pub fn should_apply(&self, classical_state: &ClassicalState) -> (r: bool)
        ensures
            r == holds(self.condition, classical_state@),
    {
        self.condition.evaluate(classical_state)
    }

    /// Mnemonic of the conditioned gate kind
    pub fn gate_name(&self) -> (r: &'static str)
        ensures
            r@ == gate_name_spec(self.gate),
    {
        self.gate.name()
    }

    /// Get the number of qubits this gate acts on
    pub fn num_qubits(&self) -> (r: usize)
        ensures
            r == self.qubits@.len(),
    {
        self.qubits.len()
    }
}

/// The gates of `gs` whose conditions hold in `s`, in order.
pub open spec fn applicable(gs: Seq<ConditionalGate>, s: StateView) -> Seq<ConditionalGate>
    decreases gs.len(),
{
    if gs.len() == 0 {
        Seq::empty()
    } else {
        let rest = applicable(gs.drop_last(), s);
        if holds(gs.last().condition, s) { rest.push(gs.last()) } else { rest }
    }
}

/// The circuit instructions a conditional gate stands for when it applies:
/// X, Y, Z and H on one qubit, CX on two, Rx on one qubit with its first
/// parameter; nothing for any other shape.
pub open spec fn gate_ops(g: ConditionalGate) -> Seq<InstrView> {
    match g.gate {
        StandardGate::X | StandardGate::Y | StandardGate::Z | StandardGate::H =>
            if g.qubits@.len() == 1 { seq![op1(g.gate, g.qubits@[0])] } else { Seq::empty() },
        StandardGate::CX =>
            if g.qubits@.len() == 2 { seq![op2(StandardGate::CX, g.qubits@[0], g.qubits@[1])] } else { Seq::empty() },
        StandardGate::Rx =>
            if g.qubits@.len() == 1 && g.parameters@.len() > 0 {
                seq![op1p(StandardGate::Rx, g.qubits@[0], g.parameters@[0])]
            } else {
                Seq::empty()
            },
        _ => Seq::empty(),
    }
}

/// The instructions of all gates of `gs`, in order.
pub open spec fn all_gate_ops(gs: Seq<ConditionalGate>) -> Seq<InstrView>
    decreases gs.len(),
{
    if gs.len() == 0 {
        Seq::empty()
    } else {
        all_gate_ops(gs.drop_last()) + gate_ops(gs.last())
    }
}

fn instructions_for(g: &ConditionalGate) -> (r: Vec<Instruction>)
    ensures
        views(r@) == gate_ops(*g),
{
    let r = match g.gate {
        StandardGate::X | StandardGate::Y | StandardGate::Z | StandardGate::H => {
            if g.qubits.len() == 1 {
                vec![Instruction::single(g.gate, g.qubits[0])]
            } else {
                Vec::new()
            }
        },
        StandardGate::CX => {
            if g.qubits.len() == 2 {
                vec![Instruction::pair(StandardGate::CX, g.qubits[0], g.qubits[1])]
            } else {
                Vec::new()
            }
        },
        StandardGate::Rx => {
            if g.qubits.len() == 1 && g.parameters.len() > 0 {
                vec![Instruction::rotation(StandardGate::Rx, g.qubits[0], g.parameters[0].duplicate())]
            } else {
                Vec::new()
            }
        },
        _ => Vec::new(),
    };
    assert(views(r@) =~= gate_ops(*g));
    r
}

/// Conditional circuit executor
pub struct ConditionalExecutor {
    conditional_gates: Vec<ConditionalGate>,
    classical_state: ClassicalState,
}

impl ConditionalExecutor {
    /// The registered conditional gates, in order of registration.
    pub closed spec fn gates(&self) -> Seq<ConditionalGate> {
        self.conditional_gates@
    }

    /// The classical state conditions are evaluated against.
    pub closed spec fn state(&self) -> StateView {
        self.classical_state@
    }

    /// Create a new conditional executor
    pub fn new(num_classical_bits: usize) -> (r: Self)
        ensures
            r.gates() == Seq::<ConditionalGate>::empty(),
            r.state().bits == Seq::new(num_classical_bits as nat, |i: int| 0u8),
            r.state().registers == Map::<Seq<char>, u64>::empty(),
    {
        ConditionalExecutor { conditional_gates: Vec::new(), classical_state: ClassicalState::new(num_classical_bits) }
    }

    /// Add a conditional gate
    pub fn add_conditional_gate(&mut self, gate: ConditionalGate)
        ensures
            final(self).gates() == old(self).gates().push(gate),
            final(self).state() == old(self).state(),
    {
        self.conditional_gates.push(gate);
    }

    /// Update classical state
    pub fn update_classical_state(&mut self, classical_state: ClassicalState)
        ensures
            final(self).gates() == old(self).gates(),
            final(self).state() == classical_state@,
    {
        self.classical_state = classical_state;
    }

    /// Get gates that should be executed given current classical state
    pub fn get_executable_gates(&self) -> (r: Vec<&ConditionalGate>)
        ensures
            r@.map_values(|g: &ConditionalGate| *g) == applicable(self.gates(), self.state()),
    {
        let mut r: Vec<&ConditionalGate> = Vec::new();
        let mut i: usize = 0;
        let ghost s = self.state();
        assert(self.conditional_gates@.take(0) =~= Seq::<ConditionalGate>::empty());
        while i < self.conditional_gates.len()
            invariant
                i <= self.conditional_gates@.len(),
                s == self.classical_state@,
                r@.map_values(|g: &ConditionalGate| *g) == applicable(self.conditional_gates@.take(i as int), s),
            decreases self.conditional_gates.len() - i,
        {
            let g = &self.conditional_gates[i];
            let ghost before = r@;
            assert(self.conditional_gates@.take(i + 1).drop_last() =~= self.conditional_gates@.take(i as int));
            if g.should_apply(&self.classical_state) {
                r.push(g);
                assert(r@.map_values(|g: &ConditionalGate| *g) =~= before.map_values(|g: &ConditionalGate| *g).push(*g));
            }
            i = i + 1;
        }
        assert(self.conditional_gates@.take(i as int) =~= self.conditional_gates@);
        r
    }

    /// Execute conditional gates on a quantum circuit: add the instructions
    /// of every applicable gate, in order, stopping at the first one the
    /// circuit rejects
    pub fn execute_on_circuit(&self, circuit: &mut QuantumCircuit) -> (r: Result<()>)
        ensures
            emits(old(circuit)@, final(circuit)@, r, all_gate_ops(applicable(self.gates(), self.state()))),
    {
        let gates = self.get_executable_gates();
        let ghost gs = gates@.map_values(|g: &ConditionalGate| *g);
        let mut ops: Vec<Instruction> = Vec::new();
        let mut i: usize = 0;
        assert(gs.take(0) =~= Seq::<ConditionalGate>::empty());
        while i < gates.len()
            invariant
                i <= gates@.len(),
                gs == gates@.map_values(|g: &ConditionalGate| *g),
                views(ops@) == all_gate_ops(gs.take(i as int)),
            decreases gates.len() - i,
        {
            let mut more = instructions_for(gates[i]);
            let ghost before = ops@;
            ops.append(&mut more);
            assert(gs.take(i + 1).drop_last() =~= gs.take(i as int));
            assert(gs.take(i + 1).last() == *gates@[i as int]);
            assert(views(ops@) =~= views(before) + gate_ops(*gates@[i as int]));
            i = i + 1;
        }
        assert(gs.take(i as int) =~= gs);
        circuit.append_all(ops)
    }
}

/// Conditional operations on circuits.
impl QuantumCircuit {
    /// Add a conditional gate to the circuit. Conditional gates are not
    /// recorded in the circuit: the circuit is left as it is.
    pub fn add_conditional_gate(&mut self, conditional_gate: ConditionalGate) -> (r: Result<()>)
        ensures
            r is Ok,
            final(self)@ == old(self)@,
    {
        Ok(())
    }

    /// Add a conditional X gate
    pub fn c_if_x(&mut self, qubit: usize, condition: ClassicalCondition) -> (r: Result<()>)
        ensures
            r is Ok,
            final(self)@ == old(self)@,
    {
        let g = ConditionalGate::new(StandardGate::X, vec![qubit], Vec::new(), condition);
        self.add_conditional_gate(g)
    }

    /// Add a conditional Y gate
    pub fn c_if_y(&mut self, qubit: usize, condition: ClassicalCondition) -> (r: Result<()>)
        ensures
            r is Ok,
            final(self)@ == old(self)@,
    {
        let g = ConditionalGate::new(StandardGate::Y, vec![qubit], Vec::new(), condition);
        self.add_conditional_gate(g)
    }

    /// Add a conditional Z gate
    pub fn c_if_z(&mut self, qubit: usize, condition: ClassicalCondition) -> (r: Result<()>)
        ensures
            r is Ok,
            final(self)@ == old(self)@,
    {
        let g = ConditionalGate::new(StandardGate::Z, vec![qubit], Vec::new(), condition);
        self.add_conditional_gate(g)
    }

    /// Add a conditional Hadamard gate
    pub fn c_if_h(&mut self, qubit: usize, condition: ClassicalCondition) -> (r: Result<()>)
        ensures
            r is Ok,
            final(self)@ == old(self)@,
    {
        let g = ConditionalGate::new(StandardGate::H, vec![qubit], Vec::new(), condition);
        self.add_conditional_gate(g)
    }

    /// Add a conditional CNOT gate
    pub fn c_if_cx(&mut self, control: usize, target: usize, condition: ClassicalCondition) -> (r: Result<()>)
        ensures
            r is Ok,
            final(self)@ == old(self)@,
    {
        let g = ConditionalGate::new(StandardGate::CX, vec![control, target], Vec::new(), condition);
        self.add_conditional_gate(g)
    }

    /// Add a conditional rotation gate
    pub fn c_if_rx(&mut self, qubit: usize, angle: u64, condition: ClassicalCondition) -> (r: Result<()>)
        ensures
            r is Ok,
            final(self)@ == old(self)@,
    {
        let g = ConditionalGate::new(StandardGate::Rx, vec![qubit], vec![Parameter::Float(angle)], condition);
        self.add_conditional_gate(g)
    }

    /// Add a conditional measurement: the measurement is added unconditionally
    pub fn c_if_measure(&mut self, qubit: usize, clbit: usize, condition: ClassicalCondition) -> (r: Result<()>)
        ensures
            emits(old(self)@, final(self)@, r, seq![measure_op(qubit, clbit)]),
    {
        self.measure(qubit, clbit)
    }
}

} // verus!
