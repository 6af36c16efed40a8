//! Benchmark circuits for structure restoration: Trotterised Hamiltonian
//! simulation, variational ansatz circuits, QAOA and qDRIFT sequences.
//!
//! Angles are binary64 encodings of their values in radians.

use vstd::prelude::*;
use crate::circuit::{
    all_valid, lemma_run_valid, lemma_valid_one, lemma_valid_two, op1, op1f, op2, views,
    CircuitView, InstrView, Instruction, QuantumCircuit,
};
use crate::easy_api::{join, push_valid};
use crate::gates::{Parameter, StandardGate, HALF_PI_BITS, NEG_HALF_PI_BITS, PI_BITS};

verus! {

/// Optimization level applied before restoration
#[derive(Debug, Clone, Copy, PartialEq, Eq, Structural)]
pub enum OptimizationLevel {
    /// Light optimization (basic gate merging)
    Light,
    /// Medium optimization (gate cancellation + merging)
    Medium,
    /// Heavy optimization (full rewrite + synthesis)
    Heavy,
}

/// Benchmark circuit type
#[derive(Debug, Clone, Copy, PartialEq, Eq, Structural)]
pub enum BenchmarkCircuit {
    /// Hamiltonian simulation (Trotter)
    HamiltonianSimulation,
    /// VQE ansatz circuit
    VQE,
    /// QAOA circuit
    QAOA,
    /// qDRIFT randomized product formula circuit
    QDRIFT,
    /// Random Clifford circuit
    RandomClifford,
    /// Grover oracle circuit
    GroverOracle,
}

/// 0.02
pub const ANGLE_0_02: u64 = 0x3f947ae147ae147bu64;
/// 0.03
pub const ANGLE_0_03: u64 = 0x3f9eb851eb851eb8u64;
/// 0.05
pub const ANGLE_0_05: u64 = 0x3fa999999999999au64;
/// 0.1
pub const ANGLE_0_1: u64 = 0x3fb999999999999au64;
/// 0.2
pub const ANGLE_0_2: u64 = 0x3fc999999999999au64;
/// 0.3
pub const ANGLE_0_3: u64 = 0x3fd3333333333333u64;
/// 0.4
pub const ANGLE_0_4: u64 = 0x3fd999999999999au64;
/// 0.5
pub const ANGLE_0_5: u64 = 0x3fe0000000000000u64;

/// `k` copies of `block`, one after another.
pub open spec fn repeat_ops(block: Seq<InstrView>, k: nat) -> Seq<InstrView>
    decreases k,
{
    if k == 0 {
        Seq::empty()
    } else {
        repeat_ops(block, (k - 1) as nat) + block
    }
}

/// ZZ interaction between qubits `i` and `i + 1`: basis change, CNOT,
/// Z rotation by `angle`, CNOT, basis change back.
pub open spec fn zz_block(i: usize, angle: u64) -> Seq<InstrView> {
    seq![
        op1(StandardGate::H, i),
        op2(StandardGate::CX, i, (i + 1) as usize),
        op1f(StandardGate::Rz, (i + 1) as usize, angle),
        op2(StandardGate::CX, i, (i + 1) as usize),
        op1(StandardGate::H, i),
    ]
}

/// ZZ interactions on the pairs `(i, i + 1)` for `i` below `k`.
pub open spec fn zz_chain(k: nat, angle: u64) -> Seq<InstrView>
    decreases k,
{
    if k == 0 {
        Seq::empty()
    } else {
        zz_chain((k - 1) as nat, angle) + zz_block((k - 1) as usize, angle)
    }
}

/// XX interaction between qubits `i` and `i + 1`, by Y rotations of a
/// quarter turn around a ZZ interaction of angle 0.2.
pub open spec fn xx_block(i: usize) -> Seq<InstrView> {
    seq![
        op1f(StandardGate::Ry, i, HALF_PI_BITS),
        op1f(StandardGate::Ry, (i + 1) as usize, HALF_PI_BITS),
        op2(StandardGate::CX, i, (i + 1) as usize),
        op1f(StandardGate::Rz, (i + 1) as usize, ANGLE_0_2),
        op2(StandardGate::CX, i, (i + 1) as usize),
        op1f(StandardGate::Ry, i, NEG_HALF_PI_BITS),
        op1f(StandardGate::Ry, (i + 1) as usize, NEG_HALF_PI_BITS),
    ]
}

/// XX interactions on the pairs `(i, i + 1)` for `i` below `k`.
pub open spec fn xx_chain(k: nat) -> Seq<InstrView>
    decreases k,
{
    if k == 0 {
        Seq::empty()
    } else {
        xx_chain((k - 1) as nat) + xx_block((k - 1) as usize)
    }
}

/// One Trotter step on `n` qubits: all ZZ interactions, then all XX ones.
pub open spec fn trotter_step(n: nat) -> Seq<InstrView> {
    zz_chain((n - 1) as nat, ANGLE_0_1) + xx_chain((n - 1) as nat)
}

/// Gates of the Hamiltonian simulation benchmark.
pub open spec fn hamiltonian_ops(n: nat, steps: nat) -> Seq<InstrView> {
    repeat_ops(trotter_step(n), steps)
}

/// Y then Z rotation on each qubit below `k`.
pub open spec fn ry_rz_each(k: nat) -> Seq<InstrView>
    decreases k,
{
    if k == 0 {
        Seq::empty()
    } else {
        ry_rz_each((k - 1) as nat) + seq![
            op1f(StandardGate::Ry, (k - 1) as usize, ANGLE_0_3),
            op1f(StandardGate::Rz, (k - 1) as usize, ANGLE_0_2),
        ]
    }
}

/// CNOTs on the pairs `(i, i + 1)` for `i` below `k`.
pub open spec fn cx_chain(k: nat) -> Seq<InstrView> {
    Seq::new(k, |i: int| op2(StandardGate::CX, i as usize, (i + 1) as usize))
}

/// One layer of the hardware-efficient ansatz on `n` qubits.
pub open spec fn ansatz_layer(n: nat) -> Seq<InstrView> {
    ry_rz_each(n) + cx_chain((n - 1) as nat)
}

/// Gate `g` with angle `angle` on each qubit below `k`.
pub open spec fn rotation_each(g: StandardGate, k: nat, angle: u64) -> Seq<InstrView> {
    Seq::new(k, |i: int| op1f(g, i as usize, angle))
}

/// Gate `g` on each qubit below `k`.
pub open spec fn gate_each(g: StandardGate, k: nat) -> Seq<InstrView> {
    Seq::new(k, |i: int| op1(g, i as usize))
}

/// One QAOA round on `n` qubits: the problem's ZZ terms, then the mixer.
pub open spec fn qaoa_round(n: nat) -> Seq<InstrView> {
    zz_chain((n - 1) as nat, ANGLE_0_4) + rotation_each(StandardGate::Rx, n, ANGLE_0_3)
}

/// Gates of the QAOA benchmark: a uniform superposition, then `p` rounds.
pub open spec fn qaoa_ops(n: nat, p: nat) -> Seq<InstrView> {
    gate_each(StandardGate::H, n) + repeat_ops(qaoa_round(n), p)
}

/// The Pauli rotation kind chosen for sample `i` of a qDRIFT sequence.
pub open spec fn qdrift_kind(i: int) -> StandardGate {
    let t = (i * 13 + 5) % 3;
    if t == 0 {
        StandardGate::Rx
    } else if t == 1 {
        StandardGate::Ry
    } else {
        StandardGate::Rz
    }
}

/// Gates of the qDRIFT benchmark: sample `i` is a rotation by `theta` of
/// kind `qdrift_kind(i)` on qubit `(7i + 3) mod n`.
pub open spec fn qdrift_ops(n: nat, samples: nat, theta: u64) -> Seq<InstrView> {
    Seq::new(samples, |i: int| op1f(qdrift_kind(i), ((i * 7 + 3) % (n as int)) as usize, theta))
}

/// The circuit with `n` qubits, `nc` classical bits and the instructions `ops`.
pub open spec fn circuit_with(n: usize, nc: usize, ops: Seq<InstrView>) -> CircuitView {
    CircuitView { num_qubits: n, num_clbits: nc, ops }
}

/// A circuit holding exactly the given instructions, all of which it accepts.
fn circuit_from(n: usize, nc: usize, ops: Vec<Instruction>) -> (r: QuantumCircuit)
    requires
        all_valid(n, nc, views(ops@)),
    ensures
        r@ == circuit_with(n, nc, views(ops@)),
{
    let mut c = QuantumCircuit::new(n, nc);
    let ghost init = c@;
    let ghost all = views(ops@);
    proof {
        lemma_run_valid(init, all);
        assert(init.ops + all =~= all);
    }
    let _ = c.append_all(ops);
    c
}

/// The ZZ interaction on `(i, i + 1)`.
fn zz_block_vec(i: usize, n: usize, angle: u64) -> (r: Vec<Instruction>)
    requires
        i + 1 < n,
    ensures
        views(r@) == zz_block(i, angle),
        all_valid(n, 0, views(r@)),
{
    let mut r: Vec<Instruction> = Vec::new();
    proof {
        lemma_valid_one(n, 0, StandardGate::H, i, Seq::empty());
        lemma_valid_two(n, 0, StandardGate::CX, i, (i + 1) as usize, Seq::empty());
        lemma_valid_one(n, 0, StandardGate::Rz, (i + 1) as usize, seq![Parameter::Float(angle)]);
        assert(all_valid(n, 0, views(r@)));
    }
    push_valid(&mut r, Instruction::single(StandardGate::H, i), n, 0);
    push_valid(&mut r, Instruction::pair(StandardGate::CX, i, i + 1), n, 0);
    push_valid(&mut r, Instruction::rotation(StandardGate::Rz, i + 1, Parameter::Float(angle)), n, 0);
    push_valid(&mut r, Instruction::pair(StandardGate::CX, i, i + 1), n, 0);
    push_valid(&mut r, Instruction::single(StandardGate::H, i), n, 0);
    assert(views(r@) =~= zz_block(i, angle));
    r
}

/// ZZ interactions along the chain of `n` qubits.
fn zz_chain_vec(n: usize, angle: u64) -> (r: Vec<Instruction>)
    requires
        n >= 1,
    ensures
        views(r@) == zz_chain((n - 1) as nat, angle),
        all_valid(n, 0, views(r@)),
{
    let mut r: Vec<Instruction> = Vec::new();
    let mut i: usize = 0;
    proof {
        assert(views(r@) =~= zz_chain(0, angle));
    }
    while i < n - 1
        invariant
            n >= 1,
            i <= n - 1,
            views(r@) == zz_chain(i as nat, angle),
            all_valid(n, 0, views(r@)),
        decreases n - 1 - i,
    {
        let b = zz_block_vec(i, n, angle);
        join(&mut r, b, n, 0);
        i = i + 1;
    }
    r
}

/// The XX interaction on `(i, i + 1)`.
fn xx_block_vec(i: usize, n: usize) -> (r: Vec<Instruction>)
    requires
        i + 1 < n,
    ensures
        views(r@) == xx_block(i),
        all_valid(n, 0, views(r@)),
{
    let mut r: Vec<Instruction> = Vec::new();
    let j = i + 1;
    proof {
        lemma_valid_one(n, 0, StandardGate::Ry, i, seq![Parameter::Float(HALF_PI_BITS)]);
        lemma_valid_one(n, 0, StandardGate::Ry, j, seq![Parameter::Float(HALF_PI_BITS)]);
        lemma_valid_two(n, 0, StandardGate::CX, i, j, Seq::empty());
        lemma_valid_one(n, 0, StandardGate::Rz, j, seq![Parameter::Float(ANGLE_0_2)]);
        lemma_valid_one(n, 0, StandardGate::Ry, i, seq![Parameter::Float(NEG_HALF_PI_BITS)]);
        lemma_valid_one(n, 0, StandardGate::Ry, j, seq![Parameter::Float(NEG_HALF_PI_BITS)]);
        assert(all_valid(n, 0, views(r@)));
    }
    push_valid(&mut r, Instruction::rotation(StandardGate::Ry, i, Parameter::Float(HALF_PI_BITS)), n, 0);
    push_valid(&mut r, Instruction::rotation(StandardGate::Ry, j, Parameter::Float(HALF_PI_BITS)), n, 0);
    push_valid(&mut r, Instruction::pair(StandardGate::CX, i, j), n, 0);
    push_valid(&mut r, Instruction::rotation(StandardGate::Rz, j, Parameter::Float(ANGLE_0_2)), n, 0);
    push_valid(&mut r, Instruction::pair(StandardGate::CX, i, j), n, 0);
    push_valid(&mut r, Instruction::rotation(StandardGate::Ry, i, Parameter::Float(NEG_HALF_PI_BITS)), n, 0);
    push_valid(&mut r, Instruction::rotation(StandardGate::Ry, j, Parameter::Float(NEG_HALF_PI_BITS)), n, 0);
    assert(views(r@) =~= xx_block(i));
    r
}

/// One Trotter step on `n` qubits.
fn trotter_step_vec(n: usize) -> (r: Vec<Instruction>)
    requires
        n >= 1,
    ensures
        views(r@) == trotter_step(n as nat),
        all_valid(n, 0, views(r@)),
{
    let mut r = zz_chain_vec(n, ANGLE_0_1);
    let mut xx: Vec<Instruction> = Vec::new();
    let mut i: usize = 0;
    proof {
        assert(views(xx@) =~= xx_chain(0));
    }
    while i < n - 1
        invariant
            n >= 1,
            i <= n - 1,
            views(xx@) == xx_chain(i as nat),
            all_valid(n, 0, views(xx@)),
        decreases n - 1 - i,
    {
        let b = xx_block_vec(i, n);
        join(&mut xx, b, n, 0);
        i = i + 1;
    }
    join(&mut r, xx, n, 0);
    r
}

/// Generate a Hamiltonian simulation circuit (Trotter): `num_steps` steps,
/// each with ZZ interactions along the chain of qubits and then XX ones
pub fn generate_hamiltonian_simulation(num_qubits: usize, num_steps: usize) -> (r: QuantumCircuit)
    requires
        num_steps == 0 || num_qubits >= 1,
    ensures
        r@ == circuit_with(num_qubits, 0, hamiltonian_ops(num_qubits as nat, num_steps as nat)),
{
    let mut ops: Vec<Instruction> = Vec::new();
    let mut s: usize = 0;
    proof {
        assert(views(ops@) =~= repeat_ops(trotter_step(num_qubits as nat), 0));
    }
    while s < num_steps
        invariant
            s <= num_steps,
            num_steps == 0 || num_qubits >= 1,
            views(ops@) == repeat_ops(trotter_step(num_qubits as nat), s as nat),
            all_valid(num_qubits, 0, views(ops@)),
        decreases num_steps - s,
    {
        let step = trotter_step_vec(num_qubits);
        join(&mut ops, step, num_qubits, 0);
        s = s + 1;
    }
    circuit_from(num_qubits, 0, ops)
}

/// One layer of the hardware-efficient ansatz.
fn ansatz_layer_vec(n: usize) -> (r: Vec<Instruction>)
    requires
        n >= 1,
    ensures
        views(r@) == ansatz_layer(n as nat),
        all_valid(n, 0, views(r@)),
{
    let mut r: Vec<Instruction> = Vec::new();
    let mut i: usize = 0;
    proof {
        assert(views(r@) =~= ry_rz_each(0));
    }
    while i < n
        invariant
            i <= n,
            views(r@) == ry_rz_each(i as nat),
            all_valid(n, 0, views(r@)),
        decreases n - i,
    {
        proof {
            lemma_valid_one(n, 0, StandardGate::Ry, i, seq![Parameter::Float(ANGLE_0_3)]);
            lemma_valid_one(n, 0, StandardGate::Rz, i, seq![Parameter::Float(ANGLE_0_2)]);
        }
        let ghost before = views(r@);
        push_valid(&mut r, Instruction::rotation(StandardGate::Ry, i, Parameter::Float(ANGLE_0_3)), n, 0);
        push_valid(&mut r, Instruction::rotation(StandardGate::Rz, i, Parameter::Float(ANGLE_0_2)), n, 0);
        i = i + 1;
        assert(views(r@) =~= ry_rz_each(i as nat));
    }
    let cx = cx_chain_vec(n);
    join(&mut r, cx, n, 0);
    r
}

/// CNOTs along the chain of `n` qubits.
fn cx_chain_vec(n: usize) -> (r: Vec<Instruction>)
    requires
        n >= 1,
    ensures
        views(r@) == cx_chain((n - 1) as nat),
        all_valid(n, 0, views(r@)),
{
    let mut r: Vec<Instruction> = Vec::new();
    let mut i: usize = 0;
    proof {
        assert(views(r@) =~= cx_chain(0));
    }
    while i < n - 1
        invariant
            n >= 1,
            i <= n - 1,
            views(r@) == cx_chain(i as nat),
            all_valid(n, 0, views(r@)),
        decreases n - 1 - i,
    {
        proof {
            lemma_valid_two(n, 0, StandardGate::CX, i, (i + 1) as usize, Seq::empty());
        }
        push_valid(&mut r, Instruction::pair(StandardGate::CX, i, i + 1), n, 0);
        i = i + 1;
        assert(views(r@) =~= cx_chain(i as nat));
    }
    r
}

/// Gates of the hardware-efficient ansatz benchmark.
pub open spec fn vqe_ansatz_ops(n: nat, depth: nat) -> Seq<InstrView> {
    repeat_ops(ansatz_layer(n), depth)
}

/// Generate a VQE ansatz circuit (EfficientSU2 style): `depth` layers, each
/// a Y and a Z rotation on every qubit, then CNOTs along the chain
pub fn generate_vqe_ansatz(num_qubits: usize, depth: usize) -> (r: QuantumCircuit)
    requires
        depth == 0 || num_qubits >= 1,
    ensures
        r@ == circuit_with(num_qubits, 0, vqe_ansatz_ops(num_qubits as nat, depth as nat)),
{
    let mut ops: Vec<Instruction> = Vec::new();
    let mut d: usize = 0;
    proof {
        assert(views(ops@) =~= repeat_ops(ansatz_layer(num_qubits as nat), 0));
    }
    while d < depth
        invariant
            d <= depth,
            depth == 0 || num_qubits >= 1,
            views(ops@) == repeat_ops(ansatz_layer(num_qubits as nat), d as nat),
            all_valid(num_qubits, 0, views(ops@)),
        decreases depth - d,
    {
        let layer = ansatz_layer_vec(num_qubits);
        join(&mut ops, layer, num_qubits, 0);
        d = d + 1;
    }
    circuit_from(num_qubits, 0, ops)
}

/// Gate `g` with angle `angle` on each qubit below `n`.
fn rotation_each_vec(g: StandardGate, n: usize, angle: u64) -> (r: Vec<Instruction>)
    ensures
        views(r@) == rotation_each(g, n as nat, angle),
        all_valid(n, 0, views(r@)),
{
    let mut r: Vec<Instruction> = Vec::new();
    let mut i: usize = 0;
    proof {
        assert(views(r@) =~= rotation_each(g, 0, angle));
    }
    while i < n
        invariant
            i <= n,
            views(r@) == rotation_each(g, i as nat, angle),
            all_valid(n, 0, views(r@)),
        decreases n - i,
    {
        proof {
            lemma_valid_one(n, 0, g, i, seq![Parameter::Float(angle)]);
        }
        push_valid(&mut r, Instruction::rotation(g, i, Parameter::Float(angle)), n, 0);
        i = i + 1;
        assert(views(r@) =~= rotation_each(g, i as nat, angle));
    }
    r
}

/// Generate a QAOA circuit: Hadamards on all qubits, then `p` rounds of ZZ
/// terms along the chain and X rotations on every qubit
pub fn generate_qaoa(num_qubits: usize, p: usize) -> (r: QuantumCircuit)
    requires
        p == 0 || num_qubits >= 1,
    ensures
        r@ == circuit_with(num_qubits, 0, qaoa_ops(num_qubits as nat, p as nat)),
{
    let n = num_qubits;
    let mut ops: Vec<Instruction> = Vec::new();
    let mut i: usize = 0;
    proof {
        assert(views(ops@) =~= gate_each(StandardGate::H, 0));
    }
    while i < n
        invariant
            i <= n,
            views(ops@) == gate_each(StandardGate::H, i as nat),
            all_valid(n, 0, views(ops@)),
        decreases n - i,
    {
        proof {
            lemma_valid_one(n, 0, StandardGate::H, i, Seq::empty());
        }
        push_valid(&mut ops, Instruction::single(StandardGate::H, i), n, 0);
        i = i + 1;
        assert(views(ops@) =~= gate_each(StandardGate::H, i as nat));
    }
    let ghost init = views(ops@);
    let mut rounds: Vec<Instruction> = Vec::new();
    let mut k: usize = 0;
    proof {
        assert(views(rounds@) =~= repeat_ops(qaoa_round(n as nat), 0));
    }
    while k < p
        invariant
            k <= p,
            p == 0 || n >= 1,
            views(rounds@) == repeat_ops(qaoa_round(n as nat), k as nat),
            all_valid(n, 0, views(rounds@)),
        decreases p - k,
    {
        let mut round = zz_chain_vec(n, ANGLE_0_4);
        let mixer = rotation_each_vec(StandardGate::Rx, n, ANGLE_0_3);
        join(&mut round, mixer, n, 0);
        join(&mut rounds, round, n, 0);
        k = k + 1;
    }
    join(&mut ops, rounds, n, 0);
    circuit_from(n, 0, ops)
}

/// A qDRIFT sequence of `num_samples` Pauli rotations by `theta`: sample
/// `i` rotates qubit `(7i + 3) mod num_qubits` about the axis chosen by
/// `(13i + 5) mod 3` (X, Y, Z)
pub fn qdrift_circuit(num_qubits: usize, num_samples: usize, theta: u64) -> (r: QuantumCircuit)
    requires
        num_qubits >= 1,
        num_samples * 13 + 5 <= usize::MAX,
    ensures
        r@ == circuit_with(num_qubits, 0, qdrift_ops(num_qubits as nat, num_samples as nat, theta)),
{
    let n = num_qubits;
    let mut ops: Vec<Instruction> = Vec::new();
    let mut i: usize = 0;
    proof {
        assert(views(ops@) =~= qdrift_ops(n as nat, 0, theta));
    }
    while i < num_samples
        invariant
            i <= num_samples,
            n >= 1,
            num_samples * 13 + 5 <= usize::MAX,
            views(ops@) == qdrift_ops(n as nat, i as nat, theta),
            all_valid(n, 0, views(ops@)),
        decreases num_samples - i,
    {
        let q = (i * 7 + 3) % n;
        let t = (i * 13 + 5) % 3;
        let g = if t == 0 {
            StandardGate::Rx
        } else if t == 1 {
            StandardGate::Ry
        } else {
            StandardGate::Rz
        };
        assert(g == qdrift_kind(i as int));
        proof {
            lemma_valid_one(n, 0, g, q, seq![Parameter::Float(theta)]);
        }
        push_valid(&mut ops, Instruction::rotation(g, q, Parameter::Float(theta)), n, 0);
        i = i + 1;
        assert(views(ops@) =~= qdrift_ops(n as nat, i as nat, theta));
    }
    circuit_from(n, 0, ops)
}


/// `n - 1`, or 0 when `n` is 0.
pub open spec fn pred_or_zero(n: nat) -> nat {
    if n >= 1 { (n - 1) as nat } else { 0 }
}

/// Single excitation from orbital `occ` to orbital `virt`.
pub open spec fn single_excitation(occ: usize, virt: usize) -> Seq<InstrView> {
    seq![
        op1f(StandardGate::Ry, occ, ANGLE_0_05),
        op1f(StandardGate::Ry, virt, ANGLE_0_05),
        op2(StandardGate::CX, occ, virt),
        op1f(StandardGate::Rz, virt, ANGLE_0_1),
        op2(StandardGate::CX, occ, virt),
    ]
}

/// Single excitations from `occ` to the `k` orbitals from `first` on.
pub open spec fn singles_from(occ: usize, first: nat, k: nat) -> Seq<InstrView>
    decreases k,
{
    if k == 0 {
        Seq::empty()
    } else {
        singles_from(occ, first, (k - 1) as nat) + single_excitation(occ, (first + k - 1) as usize)
    }
}

/// Single excitations from each of the first `m` orbitals to the orbitals
/// from `first` below `n`.
pub open spec fn singles(m: nat, first: nat, n: nat) -> Seq<InstrView>
    decreases m,
{
    if m == 0 {
        Seq::empty()
    } else {
        singles((m - 1) as nat, first, n) + singles_from((m - 1) as usize, first, (if n > first { n - first } else { 0 }) as nat)
    }
}

/// Double excitation block on the pairs `(i, i + 1)` and `(a, a + 1)`.
pub open spec fn double_excitation(i: usize, a: usize) -> Seq<InstrView> {
    seq![
        op1f(StandardGate::Ry, i, ANGLE_0_02),
        op1f(StandardGate::Ry, a, ANGLE_0_02),
        op2(StandardGate::CX, i, (i + 1) as usize),
        op2(StandardGate::CX, a, (a + 1) as usize),
        op1f(StandardGate::Rz, (a + 1) as usize, ANGLE_0_03),
        op2(StandardGate::CX, a, (a + 1) as usize),
        op2(StandardGate::CX, i, (i + 1) as usize),
    ]
}

/// Double excitation blocks from `i` with the `k` orbitals from `first` on.
pub open spec fn doubles_from(i: usize, first: nat, k: nat) -> Seq<InstrView>
    decreases k,
{
    if k == 0 {
        Seq::empty()
    } else {
        doubles_from(i, first, (k - 1) as nat) + double_excitation(i, (first + k - 1) as usize)
    }
}

/// Double excitation blocks from each of the first `m` orbitals with the
/// orbitals from `first` below `last`.
pub open spec fn doubles(m: nat, first: nat, last: nat) -> Seq<InstrView>
    decreases m,
{
    if m == 0 {
        Seq::empty()
    } else {
        doubles((m - 1) as nat, first, last) + doubles_from((m - 1) as usize, first, (if last > first { last - first } else { 0 }) as nat)
    }
}

/// The smaller of two numbers.
pub open spec fn min_nat(a: nat, b: nat) -> nat {
    if a <= b { a } else { b }
}

/// Gates of the UCCSD-like benchmark on `n` qubits with `e` electrons:
/// the Hartree-Fock state by X rotations of a half turn, single
/// excitations from occupied to virtual orbitals, then double excitation
/// blocks.
pub open spec fn uccsd_ops(n: nat, e: nat) -> Seq<InstrView> {
    rotation_each(StandardGate::Rx, min_nat(e, n), PI_BITS) + singles(min_nat(e, n), e, n)
        + doubles(pred_or_zero(min_nat(e, n)), e, pred_or_zero(n))
}

/// Single excitations from `occ` to every orbital from `e` below `n`.
fn singles_from_vec(occ: usize, e: usize, n: usize) -> (r: Vec<Instruction>)
    requires
        occ < e,
        occ < n,
    ensures
        views(r@) == singles_from(occ, e as nat, (if n > e { n - e } else { 0 }) as nat),
        all_valid(n, 0, views(r@)),
{
    let mut r: Vec<Instruction> = Vec::new();
    let mut virt: usize = e;
    proof {
        assert(views(r@) =~= singles_from(occ, e as nat, 0));
    }
    while virt < n
        invariant
            occ < e <= virt,
            occ < n,
            virt <= n || virt == e,
            views(r@) == singles_from(occ, e as nat, (virt - e) as nat),
            all_valid(n, 0, views(r@)),
        decreases n - virt,
    {
        proof {
            lemma_valid_one(n, 0, StandardGate::Ry, occ, seq![Parameter::Float(ANGLE_0_05)]);
            lemma_valid_one(n, 0, StandardGate::Ry, virt, seq![Parameter::Float(ANGLE_0_05)]);
            lemma_valid_two(n, 0, StandardGate::CX, occ, virt, Seq::empty());
            lemma_valid_one(n, 0, StandardGate::Rz, virt, seq![Parameter::Float(ANGLE_0_1)]);
        }
        let ghost before = views(r@);
        push_valid(&mut r, Instruction::rotation(StandardGate::Ry, occ, Parameter::Float(ANGLE_0_05)), n, 0);
        push_valid(&mut r, Instruction::rotation(StandardGate::Ry, virt, Parameter::Float(ANGLE_0_05)), n, 0);
        push_valid(&mut r, Instruction::pair(StandardGate::CX, occ, virt), n, 0);
        push_valid(&mut r, Instruction::rotation(StandardGate::Rz, virt, Parameter::Float(ANGLE_0_1)), n, 0);
        push_valid(&mut r, Instruction::pair(StandardGate::CX, occ, virt), n, 0);
        assert(views(r@) =~= before + single_excitation(occ, virt));
        virt = virt + 1;
        assert(views(r@) =~= singles_from(occ, e as nat, (virt - e) as nat));
    }
    r
}

/// Double excitation blocks from `i` with every orbital from `e` below `last`.
fn doubles_from_vec(i: usize, e: usize, last: usize, n: usize) -> (r: Vec<Instruction>)
    requires
        i + 1 < n,
        last < n,
    ensures
        views(r@) == doubles_from(i, e as nat, (if last > e { last - e } else { 0 }) as nat),
        all_valid(n, 0, views(r@)),
{
    let mut r: Vec<Instruction> = Vec::new();
    let mut a: usize = e;
    proof {
        assert(views(r@) =~= doubles_from(i, e as nat, 0));
    }
    while a < last
        invariant
            e <= a,
            i + 1 < n,
            last < n,
            a <= last || a == e,
            views(r@) == doubles_from(i, e as nat, (a - e) as nat),
            all_valid(n, 0, views(r@)),
        decreases last - a,
    {
        proof {
            lemma_valid_one(n, 0, StandardGate::Ry, i, seq![Parameter::Float(ANGLE_0_02)]);
            lemma_valid_one(n, 0, StandardGate::Ry, a, seq![Parameter::Float(ANGLE_0_02)]);
            lemma_valid_two(n, 0, StandardGate::CX, i, (i + 1) as usize, Seq::empty());
            lemma_valid_two(n, 0, StandardGate::CX, a, (a + 1) as usize, Seq::empty());
            lemma_valid_one(n, 0, StandardGate::Rz, (a + 1) as usize, seq![Parameter::Float(ANGLE_0_03)]);
        }
        let ghost before = views(r@);
        push_valid(&mut r, Instruction::rotation(StandardGate::Ry, i, Parameter::Float(ANGLE_0_02)), n, 0);
        push_valid(&mut r, Instruction::rotation(StandardGate::Ry, a, Parameter::Float(ANGLE_0_02)), n, 0);
        push_valid(&mut r, Instruction::pair(StandardGate::CX, i, i + 1), n, 0);
        push_valid(&mut r, Instruction::pair(StandardGate::CX, a, a + 1), n, 0);
        push_valid(&mut r, Instruction::rotation(StandardGate::Rz, a + 1, Parameter::Float(ANGLE_0_03)), n, 0);
        push_valid(&mut r, Instruction::pair(StandardGate::CX, a, a + 1), n, 0);
        push_valid(&mut r, Instruction::pair(StandardGate::CX, i, i + 1), n, 0);
        assert(views(r@) =~= before + double_excitation(i, a));
        a = a + 1;
        assert(views(r@) =~= doubles_from(i, e as nat, (a - e) as nat));
    }
    r
}

/// Generate a UCCSD-like VQE ansatz: X rotations by pi on the occupied
/// orbitals (the Hartree-Fock state), a single excitation block for each
/// occupied-virtual pair, then a double excitation block for each pair of
/// neighbouring occupied and neighbouring virtual orbitals
pub fn generate_vqe_uccsd(num_qubits: usize, num_electrons: usize) -> (r: QuantumCircuit)
    ensures
        r@ == circuit_with(num_qubits, 0, uccsd_ops(num_qubits as nat, num_electrons as nat)),
{
    let n = num_qubits;
    let e = num_electrons;
    let m = if e <= n { e } else { n };
    let mut ops = rotation_each_vec(StandardGate::Rx, m, PI_BITS);
    proof {
        assert forall|j: int| 0 <= j < views(ops@).len() implies
            crate::circuit::op_fault(n, 0, #[trigger] views(ops@)[j]) is None by {
            lemma_valid_one(n, 0, StandardGate::Rx, j as usize, seq![Parameter::Float(PI_BITS)]);
        }
    }
    let mut sing: Vec<Instruction> = Vec::new();
    let mut occ: usize = 0;
    proof {
        assert(views(sing@) =~= singles(0, e as nat, n as nat));
    }
    while occ < m
        invariant
            occ <= m,
            m <= e,
            m <= n,
            views(sing@) == singles(occ as nat, e as nat, n as nat),
            all_valid(n, 0, views(sing@)),
        decreases m - occ,
    {
        let block = singles_from_vec(occ, e, n);
        join(&mut sing, block, n, 0);
        occ = occ + 1;
    }
    join(&mut ops, sing, n, 0);
    let m1 = if m >= 1 { m - 1 } else { 0 };
    let last = if n >= 1 { n - 1 } else { 0 };
    let mut doub: Vec<Instruction> = Vec::new();
    let mut i: usize = 0;
    proof {
        assert(views(doub@) =~= doubles(0, e as nat, last as nat));
    }
    while i < m1
        invariant
            i <= m1,
            m1 == (if m >= 1 { m - 1 } else { 0 }),
            last == (if n >= 1 { n - 1 } else { 0 }),
            m <= n,
            views(doub@) == doubles(i as nat, e as nat, last as nat),
            all_valid(n, 0, views(doub@)),
        decreases m1 - i,
    {
        let block = doubles_from_vec(i, e, last, n);
        join(&mut doub, block, n, 0);
        i = i + 1;
    }
    join(&mut ops, doub, n, 0);
    proof {
        assert(min_nat(e as nat, n as nat) == m);
    }
    circuit_from(n, 0, ops)
}

/// Y rotations of the qubits below `n` by the angles from position `start` of `angles`.
pub open spec fn ry_angles(n: nat, start: int, angles: Seq<u64>) -> Seq<InstrView> {
    Seq::new(n, |i: int| op1f(StandardGate::Ry, i as usize, angles[start + i]))
}

/// The first `d` layers of the RealAmplitudes ansatz: Y rotations by the
/// angles of the layer, then CNOTs along the chain.
pub open spec fn real_amplitudes_layers(n: nat, d: nat, angles: Seq<u64>) -> Seq<InstrView>
    decreases d,
{
    if d == 0 {
        Seq::empty()
    } else {
        real_amplitudes_layers(n, (d - 1) as nat, angles) + ry_angles(n, (d - 1) * n, angles)
            + cx_chain(pred_or_zero(n))
    }
}

/// Gates of the RealAmplitudes benchmark: `depth` layers, then a final
/// layer of Y rotations by 0.5.
pub open spec fn real_amplitudes_ops(n: nat, depth: nat, angles: Seq<u64>) -> Seq<InstrView> {
    real_amplitudes_layers(n, depth, angles) + rotation_each(StandardGate::Ry, n, ANGLE_0_5)
}

/// A RealAmplitudes ansatz: in layer `l`, qubit `i` is rotated about Y by
/// `angles[l * num_qubits + i]`, then CNOTs run along the chain; a final
/// layer rotates every qubit by 0.5
pub fn real_amplitudes_circuit(num_qubits: usize, depth: usize, angles: &Vec<u64>) -> (r: QuantumCircuit)
    requires
        angles.len() == depth * num_qubits,
    ensures
        r@ == circuit_with(num_qubits, 0, real_amplitudes_ops(num_qubits as nat, depth as nat, angles@)),
{
    let n = num_qubits;
    let mut ops: Vec<Instruction> = Vec::new();
    let mut layer: usize = 0;
    proof {
        assert(views(ops@) =~= real_amplitudes_layers(n as nat, 0, angles@));
    }
    while layer < depth
        invariant
            layer <= depth,
            angles.len() == depth * n,
            views(ops@) == real_amplitudes_layers(n as nat, layer as nat, angles@),
            all_valid(n, 0, views(ops@)),
        decreases depth - layer,
    {
        let ghost before = views(ops@);
        let mut i: usize = 0;
        proof {
            assert(layer * n + n <= depth * n) by (nonlinear_arith)
                requires
                    layer < depth,
            ;
            assert(before + ry_angles(n as nat, layer * n, angles@).take(0) =~= before);
        }
        while i < n
            invariant
                i <= n,
                layer < depth,
                angles.len() == depth * n,
                layer * n + n <= depth * n,
                views(ops@) == before + ry_angles(n as nat, layer * n, angles@).take(i as int),
                all_valid(n, 0, views(ops@)),
            decreases n - i,
        {
            let a = angles[layer * n + i];
            proof {
                lemma_valid_one(n, 0, StandardGate::Ry, i, seq![Parameter::Float(a)]);
            }
            push_valid(&mut ops, Instruction::rotation(StandardGate::Ry, i, Parameter::Float(a)), n, 0);
            i = i + 1;
            assert(views(ops@) =~= before + ry_angles(n as nat, layer * n, angles@).take(i as int));
        }
        assert(ry_angles(n as nat, layer * n, angles@).take(n as int) =~= ry_angles(n as nat, layer * n, angles@));
        if n >= 1 {
            let cx = cx_chain_vec(n);
            join(&mut ops, cx, n, 0);
        } else {
            assert(views(ops@) =~= views(ops@) + cx_chain(0));
        }
        layer = layer + 1;
        assert(((layer - 1) * n) as int == (layer - 1) as int * n as int);
    }
    let last = rotation_each_vec(StandardGate::Ry, n, ANGLE_0_5);
    join(&mut ops, last, n, 0);
    circuit_from(n, 0, ops)
}

/// Sample `i` of a qDRIFT sequence with ZZ terms on `n` qubits: one of
/// three single-qubit rotations by `theta` on qubit `(7i + 3) mod n`, or,
/// when `(11i + 7) mod 4` is 3, a CX-Rz-CX gadget on qubits `i mod n` and
/// the next one round the ring (nothing on a single qubit).
pub open spec fn zz_drift_sample(n: nat, i: int, theta: u64) -> Seq<InstrView> {
    let selector = (i * 11 + 7) % 4;
    if selector < 3 {
        let g = if selector == 0 {
            StandardGate::Rx
        } else if selector == 1 {
            StandardGate::Ry
        } else {
            StandardGate::Rz
        };
        seq![op1f(g, ((i * 7 + 3) % (n as int)) as usize, theta)]
    } else {
        let q0 = i % (n as int);
        let q1 = (q0 + 1) % (n as int);
        if q0 != q1 {
            seq![
                op2(StandardGate::CX, q0 as usize, q1 as usize),
                op1f(StandardGate::Rz, q1 as usize, theta),
                op2(StandardGate::CX, q0 as usize, q1 as usize),
            ]
        } else {
            Seq::empty()
        }
    }
}

/// The first `k` samples of a qDRIFT sequence with ZZ terms.
pub open spec fn zz_drift_ops(n: nat, k: nat, theta: u64) -> Seq<InstrView>
    decreases k,
{
    if k == 0 {
        Seq::empty()
    } else {
        zz_drift_ops(n, (k - 1) as nat, theta) + zz_drift_sample(n, k - 1, theta)
    }
}

/// A qDRIFT sequence of `num_samples` samples with single-qubit rotations
/// and ZZ gadgets, all by `theta`
pub fn qdrift_zz_circuit(num_qubits: usize, num_samples: usize, theta: u64) -> (r: QuantumCircuit)
    requires
        num_qubits >= 1,
        num_samples * 11 + 7 <= usize::MAX,
    ensures
        r@ == circuit_with(num_qubits, 0, zz_drift_ops(num_qubits as nat, num_samples as nat, theta)),
{
    let n = num_qubits;
    let mut ops: Vec<Instruction> = Vec::new();
    let mut i: usize = 0;
    proof {
        assert(views(ops@) =~= zz_drift_ops(n as nat, 0, theta));
    }
    while i < num_samples
        invariant
            i <= num_samples,
            n >= 1,
            num_samples * 11 + 7 <= usize::MAX,
            views(ops@) == zz_drift_ops(n as nat, i as nat, theta),
            all_valid(n, 0, views(ops@)),
        decreases num_samples - i,
    {
        let ghost before = views(ops@);
        let selector = (i * 11 + 7) % 4;
        if selector < 3 {
            let q = (i * 7 + 3) % n;
            let g = if selector == 0 {
                StandardGate::Rx
            } else if selector == 1 {
                StandardGate::Ry
            } else {
                StandardGate::Rz
            };
            proof {
                lemma_valid_one(n, 0, g, q, seq![Parameter::Float(theta)]);
            }
            push_valid(&mut ops, Instruction::rotation(g, q, Parameter::Float(theta)), n, 0);
        } else {
            let q0 = i % n;
            let q1 = (q0 + 1) % n;
            if q0 != q1 {
                proof {
                    lemma_valid_two(n, 0, StandardGate::CX, q0, q1, Seq::empty());
                    lemma_valid_one(n, 0, StandardGate::Rz, q1, seq![Parameter::Float(theta)]);
                }
                push_valid(&mut ops, Instruction::pair(StandardGate::CX, q0, q1), n, 0);
                push_valid(&mut ops, Instruction::rotation(StandardGate::Rz, q1, Parameter::Float(theta)), n, 0);
                push_valid(&mut ops, Instruction::pair(StandardGate::CX, q0, q1), n, 0);
            }
        }
        assert(views(ops@) =~= before + zz_drift_sample(n as nat, i as int, theta));
        i = i + 1;
    }
    circuit_from(n, 0, ops)
}

} // verus!
