//! Gate dependency graphs, and the periodic matching of circuits against
//! the Pauli terms of Trotter step templates.

use vstd::prelude::*;
use vstd::string::StringExecFns;
use petgraph::graph::{DiGraph, Graph, NodeIndex};
use petgraph::Directed;
use crate::circuit::{views, InstrView, Instruction, QuantumCircuit};
use crate::gates::{gate_arity, StandardGate};

verus! {

#[verifier::external_type_specification]
#[verifier::external_body]
#[verifier::reject_recursive_types(N)]
#[verifier::reject_recursive_types(E)]
#[verifier::reject_recursive_types(Ty)]
#[verifier::reject_recursive_types(Ix)]
pub struct ExGraph<N, E, Ty, Ix>(Graph<N, E, Ty, Ix>);

#[verifier::external_type_specification]
#[verifier::external_body]
pub struct ExDirected(Directed);

/// Node of the dependency graph: a gate of the circuit.
#[derive(Debug, Clone, PartialEq)]
pub struct CircuitNode {
    /// Gate type
    pub gate_type: StandardGate,
    /// Qubits this gate acts on
    pub qubits: Vec<usize>,
    /// Gate index in original circuit
    pub index: usize,
}

/// The node weights of a dependency graph, in order of insertion, as
/// (gate kind, qubits, position in the circuit).
pub uninterp spec fn graph_nodes(g: DiGraph<CircuitNode, ()>) -> Seq<(StandardGate, Seq<usize>, usize)>;

/// The edges of a dependency graph, in order of insertion, as pairs of node
/// indices.
pub uninterp spec fn graph_edges(g: DiGraph<CircuitNode, ()>) -> Seq<(usize, usize)>;

/// Calls `Graph::new` of petgraph: a directed graph with no nodes and no
/// edges.
#[verifier::external_body]
fn empty_graph() -> (g: DiGraph<CircuitNode, ()>)
    ensures
        graph_nodes(g) == Seq::<(StandardGate, Seq<usize>, usize)>::empty(),
        graph_edges(g) == Seq::<(usize, usize)>::empty(),
{
    DiGraph::new()
}

/// Calls `Graph::add_node` of petgraph: the node is appended after the
/// existing ones, its index is the former node count, and the edges stay as
/// they are. petgraph panics when the count reaches the largest `u32`, which
/// `requires` rules out.
#[verifier::external_body]
fn add_graph_node(g: &mut DiGraph<CircuitNode, ()>, node: CircuitNode) -> (i: usize)
    requires
        graph_nodes(*old(g)).len() < 0xffff_ffff,
    ensures
        graph_nodes(*final(g)) == graph_nodes(*old(g)).push((node.gate_type, node.qubits@, node.index)),
        graph_edges(*final(g)) == graph_edges(*old(g)),
        i == graph_nodes(*old(g)).len(),
{
    g.add_node(node).index()
}

/// Calls `Graph::add_edge` of petgraph with the node indices `a` and `b`:
/// the edge `(a, b)` is appended after the existing ones and the nodes stay
/// as they are. petgraph panics for a node index out of range and when the
/// edge count reaches the largest `u32`, which `requires` rules out.
#[verifier::external_body]
fn add_graph_edge(g: &mut DiGraph<CircuitNode, ()>, a: usize, b: usize)
    requires
        a < graph_nodes(*old(g)).len(),
        b < graph_nodes(*old(g)).len(),
        graph_edges(*old(g)).len() < 0xffff_ffff,
    ensures
        graph_nodes(*final(g)) == graph_nodes(*old(g)),
        graph_edges(*final(g)) == graph_edges(*old(g)).push((a, b)),
{
    g.add_edge(NodeIndex::new(a), NodeIndex::new(b), ());
}

/// Some qubit of `a` is also a qubit of `b`.
pub open spec fn shares_qubit(a: Seq<usize>, b: Seq<usize>) -> bool {
    exists|k: int| 0 <= k < a.len() && b.contains(#[trigger] a[k])
}

/// Instruction `y` must stay after instruction `x`: they share a qubit, and,
/// when reordering is allowed, they are not two one-qubit gates whose first
/// qubits differ.
pub open spec fn depends(allow_reordering: bool, x: InstrView, y: InstrView) -> bool {
    &&& shares_qubit(x.qubits, y.qubits)
    &&& (allow_reordering ==> !(gate_arity(x.gate) == 1 && gate_arity(y.gate) == 1 && x.qubits[0] != y.qubits[0]))
}

/// Dependencies `(i, j)` of row `i`, with `i < j < m`, in order of `j`.
pub open spec fn row_dependencies(allow: bool, ops: Seq<InstrView>, i: nat, m: nat) -> Seq<(usize, usize)>
    decreases m,
{
    if m == 0 {
        Seq::empty()
    } else if i < m - 1 && depends(allow, ops[i as int], ops[m - 1]) {
        row_dependencies(allow, ops, i, (m - 1) as nat).push((i as usize, (m - 1) as usize))
    } else {
        row_dependencies(allow, ops, i, (m - 1) as nat)
    }
}

/// Dependencies `(i, j)` with `i` below `m`, ordered by `i`, then `j`.
pub open spec fn dependencies_upto(allow: bool, ops: Seq<InstrView>, m: nat) -> Seq<(usize, usize)>
    decreases m,
{
    if m == 0 {
        Seq::empty()
    } else {
        dependencies_upto(allow, ops, (m - 1) as nat) + row_dependencies(allow, ops, (m - 1) as nat, ops.len())
    }
}

/// All dependencies between the instructions, ordered by first, then second.
pub open spec fn dependencies(allow: bool, ops: Seq<InstrView>) -> Seq<(usize, usize)> {
    dependencies_upto(allow, ops, ops.len())
}

proof fn lemma_row_len_mono(allow: bool, ops: Seq<InstrView>, i: nat, a: nat, b: nat)
    requires
        a <= b,
    ensures
        row_dependencies(allow, ops, i, a).len() <= row_dependencies(allow, ops, i, b).len(),
    decreases b - a,
{
    if a < b {
        lemma_row_len_mono(allow, ops, i, a, (b - 1) as nat);
    }
}

proof fn lemma_upto_len_mono(allow: bool, ops: Seq<InstrView>, a: nat, b: nat)
    requires
        a <= b,
    ensures
        dependencies_upto(allow, ops, a).len() <= dependencies_upto(allow, ops, b).len(),
    decreases b - a,
{
    if a < b {
        lemma_upto_len_mono(allow, ops, a, (b - 1) as nat);
    }
}

fn contains_qubit(s: &Vec<usize>, x: usize) -> (r: bool)
    ensures
        r == s@.contains(x),
{
    let mut i: usize = 0;
    while i < s.len()
        invariant
            i <= s.len(),
            forall|j: int| 0 <= j < i ==> s@[j] != x,
        decreases s.len() - i,
    {
        if s[i] == x {
            return true;
        }
        i = i + 1;
    }
    false
}

/// Whether `gate2` must stay after `gate1`
pub fn gates_depend(allow_reordering: bool, gate1: &Instruction, gate2: &Instruction) -> (r: bool)
    ensures
        r == depends(allow_reordering, gate1@, gate2@),
{
    let mut shares = false;
    let mut k: usize = 0;
    while k < gate1.qubits.len()
        invariant
            k <= gate1.qubits.len(),
            shares <==> exists|x: int| 0 <= x < k && gate2.qubits@.contains(#[trigger] gate1.qubits@[x]),
        decreases gate1.qubits.len() - k,
    {
        if contains_qubit(&gate2.qubits, gate1.qubits[k]) {
            shares = true;
        }
        k = k + 1;
    }
    if !shares {
        return false;
    }
    if !allow_reordering {
        return true;
    }
    proof {
        let x = choose|x: int| 0 <= x < gate1.qubits@.len() && gate2.qubits@.contains(#[trigger] gate1.qubits@[x]);
        assert(gate2.qubits@.contains(gate1.qubits@[x]));
    }
    if gate1.gate.gate_type.num_qubits() == 1 && gate2.gate.gate_type.num_qubits() == 1
        && gate1.qubits[0] != gate2.qubits[0] {
        return false;
    }
    true
}

/// The dependency graph of a circuit: one node per instruction, in order,
/// and an edge from each instruction to each later one that depends on it
pub fn circuit_to_graph(allow_reordering: bool, circuit: &QuantumCircuit) -> (r: DiGraph<CircuitNode, ()>)
    requires
        circuit@.ops.len() < 0xffff_ffff,
        dependencies(allow_reordering, circuit@.ops).len() < 0xffff_ffff,
    ensures
        graph_nodes(r) == Seq::new(circuit@.ops.len(), |i: int| (circuit@.ops[i].gate, circuit@.ops[i].qubits, i as usize)),
        graph_edges(r) == dependencies(allow_reordering, circuit@.ops),
{
    let instructions = circuit.instructions();
    let ghost ops = circuit@.ops;
    let n = instructions.len();
    let mut graph = empty_graph();
    let mut idx: usize = 0;
    while idx < n
        invariant
            idx <= n,
            n == ops.len(),
            n < 0xffff_ffff,
            views(instructions@) == ops,
            graph_nodes(graph) == Seq::new(idx as nat, |i: int| (ops[i].gate, ops[i].qubits, i as usize)),
            graph_edges(graph) == Seq::<(usize, usize)>::empty(),
        decreases n - idx,
    {
        let ins = &instructions[idx];
        assert(ins@ == ops[idx as int]);
        let qubits = ins.qubits.clone();
        assert(qubits@ =~= ins.qubits@);
        let node = CircuitNode { gate_type: ins.gate.gate_type, qubits, index: idx };
        let _ = add_graph_node(&mut graph, node);
        assert(graph_nodes(graph) =~= Seq::new((idx + 1) as nat, |i: int| (ops[i].gate, ops[i].qubits, i as usize)));
        idx = idx + 1;
    }
    let mut i: usize = 0;
    while i < n
        invariant
            i <= n,
            n == ops.len(),
            views(instructions@) == ops,
            dependencies(allow_reordering, ops).len() < 0xffff_ffff,
            graph_nodes(graph) == Seq::new(n as nat, |k: int| (ops[k].gate, ops[k].qubits, k as usize)),
            graph_edges(graph) == dependencies_upto(allow_reordering, ops, i as nat),
        decreases n - i,
    {
        let ghost base = graph_edges(graph);
        let mut j: usize = i + 1;
        proof {
            assert(row_dependencies(allow_reordering, ops, i as nat, (i + 1) as nat) =~= Seq::<(usize, usize)>::empty()) by {
                reveal_with_fuel(row_dependencies, 2);
                if i > 0 {
                    lemma_row_prefix_empty(allow_reordering, ops, i as nat, i as nat);
                }
            }
            assert(base + row_dependencies(allow_reordering, ops, i as nat, (i + 1) as nat) =~= base);
        }
        while j < n
            invariant
                i < n,
                i + 1 <= j <= n,
                n == ops.len(),
                views(instructions@) == ops,
                dependencies(allow_reordering, ops).len() < 0xffff_ffff,
                base == dependencies_upto(allow_reordering, ops, i as nat),
                graph_nodes(graph) == Seq::new(n as nat, |k: int| (ops[k].gate, ops[k].qubits, k as usize)),
                graph_edges(graph) == base + row_dependencies(allow_reordering, ops, i as nat, j as nat),
            decreases n - j,
        {
            assert(instructions@[i as int]@ == ops[i as int]);
            assert(instructions@[j as int]@ == ops[j as int]);
            if gates_depend(allow_reordering, &instructions[i], &instructions[j]) {
                proof {
                    lemma_row_len_mono(allow_reordering, ops, i as nat, (j + 1) as nat, n as nat);
                    lemma_upto_len_mono(allow_reordering, ops, (i + 1) as nat, n as nat);
                    assert(dependencies_upto(allow_reordering, ops, (i + 1) as nat)
                        == base + row_dependencies(allow_reordering, ops, i as nat, n as nat));
                }
                add_graph_edge(&mut graph, i, j);
                assert(graph_edges(graph) =~= base + row_dependencies(allow_reordering, ops, i as nat, (j + 1) as nat));
            }
            j = j + 1;
        }
        i = i + 1;
    }
    graph
}

proof fn lemma_row_prefix_empty(allow: bool, ops: Seq<InstrView>, i: nat, m: nat)
    requires
        m <= i + 1,
    ensures
        row_dependencies(allow, ops, i, m) == Seq::<(usize, usize)>::empty(),
    decreases m,
{
    if m > 0 {
        lemma_row_prefix_empty(allow, ops, i, (m - 1) as nat);
    }
}

/// Whether a gate kind can belong to the circuit of a Trotter step for the
/// Pauli term `pauli`.
pub open spec fn fits_term(g: StandardGate, pauli: Seq<char>) -> bool {
    if pauli == "ZZ"@ {
        g == StandardGate::H || g == StandardGate::CX || g == StandardGate::Rz
    } else if pauli == "XX"@ {
        g == StandardGate::Ry || g == StandardGate::CX || g == StandardGate::Rz
    } else if pauli == "YY"@ {
        g == StandardGate::Rx || g == StandardGate::CX || g == StandardGate::Rz
    } else if pauli == "Z"@ {
        g == StandardGate::Rz || g == StandardGate::P
    } else if pauli == "X"@ {
        g == StandardGate::Rx
    } else if pauli == "Y"@ {
        g == StandardGate::Ry
    } else {
        false
    }
}

/// Whether a gate kind can belong to the circuit of a Trotter step for a Pauli term
pub fn gate_matches_step(gate: StandardGate, pauli: &str) -> (r: bool)
    ensures
        r == fits_term(gate, pauli@),
{
    let p = String::from_str(pauli);
    if p == String::from_str("ZZ") {
        gate == StandardGate::H || gate == StandardGate::CX || gate == StandardGate::Rz
    } else if p == String::from_str("XX") {
        gate == StandardGate::Ry || gate == StandardGate::CX || gate == StandardGate::Rz
    } else if p == String::from_str("YY") {
        gate == StandardGate::Rx || gate == StandardGate::CX || gate == StandardGate::Rz
    } else if p == String::from_str("Z") {
        gate == StandardGate::Rz || gate == StandardGate::P
    } else if p == String::from_str("X") {
        gate == StandardGate::Rx
    } else if p == String::from_str("Y") {
        gate == StandardGate::Ry
    } else {
        false
    }
}

/// Number of positions below `m` whose gate fits the step term at the same
/// position in the repeating list of terms.
pub open spec fn periodic_fits(ops: Seq<InstrView>, terms: Seq<Seq<char>>, m: nat) -> nat
    decreases m,
{
    if m == 0 {
        0
    } else {
        periodic_fits(ops, terms, (m - 1) as nat) + if fits_term(ops[m - 1].gate, terms[(m - 1) % (terms.len() as int)]) {
            1nat
        } else {
            0nat
        }
    }
}

/// How many gates of the circuit fit a Trotter template whose steps have
/// the given Pauli terms, repeated over the whole circuit: nothing when the
/// circuit or the template is empty or the circuit's length is not a
/// multiple of the template's
pub fn periodic_matches(circuit: &QuantumCircuit, terms: &Vec<String>) -> (r: Option<usize>)
    ensures
        match r {
            None => circuit@.ops.len() == 0 || terms@.len() == 0 || circuit@.ops.len() % terms@.len() != 0,
            Some(c) => {
                &&& circuit@.ops.len() > 0
                &&& terms@.len() > 0
                &&& circuit@.ops.len() % terms@.len() == 0
                &&& c == periodic_fits(circuit@.ops, terms@.map_values(|s: String| s@), circuit@.ops.len())
            },
        },
{
    let instructions = circuit.instructions();
    let ghost ops = circuit@.ops;
    let ghost names = terms@.map_values(|s: String| s@);
    let n = instructions.len();
    let t = terms.len();
    if n == 0 || t == 0 {
        return None;
    }
    if n % t != 0 {
        return None;
    }
    let mut count: usize = 0;
    let mut idx: usize = 0;
    let mut step: usize = 0;
    while idx < n
        invariant
            idx <= n,
            n == ops.len(),
            t == names.len(),
            t > 0,
            views(instructions@) == ops,
            names == terms@.map_values(|s: String| s@),
            step < t,
            step == idx % t,
            count == periodic_fits(ops, names, idx as nat),
            count <= idx,
        decreases n - idx,
    {
        assert(instructions@[idx as int]@ == ops[idx as int]);
        if gate_matches_step(instructions[idx].gate.gate_type, terms[step].as_str()) {
            count = count + 1;
        }
        proof {
            let q = idx as int / t as int;
            assert(idx as int == q * t + step) by (nonlinear_arith)
                requires step as int == idx as int % t as int, t > 0, q == idx as int / t as int;
            if step + 1 == t {
                assert((idx + 1) as int == (q + 1) * t) by (nonlinear_arith)
                    requires idx as int == q * t + step, step + 1 == t;
                assert(((idx + 1) as int) % (t as int) == 0) by (nonlinear_arith)
                    requires (idx + 1) as int == (q + 1) * t, t > 0;
            } else {
                assert((idx + 1) as int == q * t + (step + 1)) by (nonlinear_arith)
                    requires idx as int == q * t + step;
                assert(((idx + 1) as int) % (t as int) == step + 1) by (nonlinear_arith)
                    requires (idx + 1) as int == q * t + (step + 1), 0 <= step + 1 < t;
            }
        }
        idx = idx + 1;
        step = if step + 1 == t { 0 } else { step + 1 };
    }
    Some(count)
}

} // verus!
