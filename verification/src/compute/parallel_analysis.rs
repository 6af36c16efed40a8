//! Circuit analysis: how often a gate kind occurs, how many gates act on
//! each qubit, and the depth bound given by the instructions' dependencies.

use vstd::prelude::*;
use crate::circuit::{views, InstrView, QuantumCircuit};
use crate::gates::StandardGate;

verus! {

/// Number of instructions of `ops` of kind `g`.
pub open spec fn kind_count(ops: Seq<InstrView>, g: StandardGate) -> nat
    decreases ops.len(),
{
    if ops.len() == 0 {
        0
    } else {
        kind_count(ops.drop_last(), g) + if ops.last().gate == g { 1nat } else { 0nat }
    }
}

/// Number of instructions of `ops` that act on qubit `q`.
pub open spec fn usage_count(ops: Seq<InstrView>, q: usize) -> nat
    decreases ops.len(),
{
    if ops.len() == 0 {
        0
    } else {
        usage_count(ops.drop_last(), q) + if ops.last().qubits.contains(q) { 1nat } else { 0nat }
    }
}

/// Both counts are at most the number of instructions.
proof fn lemma_counts_bounded(ops: Seq<InstrView>, g: StandardGate, q: usize)
    ensures
        kind_count(ops, g) <= ops.len(),
        usage_count(ops, q) <= ops.len(),
    decreases ops.len(),
{
    if ops.len() > 0 {
        lemma_counts_bounded(ops.drop_last(), g, q);
    }
}

/// Circuit analysis utilities
pub struct ParallelCircuitAnalysis;

impl ParallelCircuitAnalysis {
    /// Count the instructions of a given gate kind
    pub fn count_gates_parallel(circuit: &QuantumCircuit, gate_type: StandardGate) -> (r: usize)
        ensures
            r == kind_count(circuit@.ops, gate_type),
    {
        let instrs = circuit.instructions();
        let ghost ops = circuit@.ops;
        let mut count: usize = 0;
        let mut i: usize = 0;
        while i < instrs.len()
            invariant
                i <= instrs.len(),
                views(instrs@) == ops,
                count == kind_count(ops.take(i as int), gate_type),
            decreases instrs.len() - i,
        {
            proof {
                assert(ops.take(i + 1).drop_last() =~= ops.take(i as int));
                lemma_counts_bounded(ops.take(i as int), gate_type, 0);
            }
            if instrs[i].gate.gate_type == gate_type {
                count = count + 1;
            }
            i = i + 1;
        }
        assert(ops.take(i as int) =~= ops);
        count
    }

    /// Depth of a circuit from the dependency lists of its instructions
    /// (one list per instruction): none without instructions, one level for
    /// an instruction without dependencies and two for one with any, and
    /// the largest of these
    pub fn calculate_depth_parallel(dependencies: &Vec<Vec<usize>>) -> (r: usize)
        ensures
            r == if dependencies@.len() == 0 {
                0usize
            } else if exists|i: int| 0 <= i < dependencies@.len() && #[trigger] dependencies@[i]@.len() > 0 {
                2usize
            } else {
                1usize
            },
    {
        if dependencies.len() == 0 {
            return 0;
        }
        let mut depth: usize = 1;
        let mut i: usize = 0;
        while i < dependencies.len()
            invariant
                i <= dependencies@.len(),
                depth == if exists|j: int| 0 <= j < i && #[trigger] dependencies@[j]@.len() > 0 {
                    2usize
                } else {
                    1usize
                },
            decreases dependencies.len() - i,
        {
            if dependencies[i].len() > 0 {
                depth = 2;
            }
            i = i + 1;
        }
        depth
    }

    /// Number of instructions acting on each qubit of the circuit
    pub fn analyze_qubit_usage_parallel(circuit: &QuantumCircuit) -> (r: Vec<usize>)
        ensures
            r@.len() == circuit@.num_qubits,
            forall|q: int| 0 <= q < r@.len() ==> #[trigger] r@[q] == usage_count(circuit@.ops, q as usize),
    {
        let instrs = circuit.instructions();
        let ghost ops = circuit@.ops;
        let n = circuit.num_qubits();
        let mut usage: Vec<usize> = Vec::new();
        let mut q: usize = 0;
        while q < n
            invariant
                q <= n,
                views(instrs@) == ops,
                usage@.len() == q,
                forall|p: int| 0 <= p < q ==> #[trigger] usage@[p] == usage_count(ops, p as usize),
            decreases n - q,
        {
            let mut count: usize = 0;
            let mut i: usize = 0;
            while i < instrs.len()
                invariant
                    i <= instrs.len(),
                    views(instrs@) == ops,
                    count == usage_count(ops.take(i as int), q),
                decreases instrs.len() - i,
            {
                proof {
                    assert(ops.take(i + 1).drop_last() =~= ops.take(i as int));
                    lemma_counts_bounded(ops.take(i as int), StandardGate::H, q);
                }
                let qubits = &instrs[i].qubits;
                assert(qubits@ == ops[i as int].qubits);
                let mut found = false;
                let mut k: usize = 0;
                while k < qubits.len()
                    invariant
                        k <= qubits.len(),
                        found == exists|j: int| 0 <= j < k && qubits@[j] == q,
                    decreases qubits.len() - k,
                {
                    if qubits[k] == q {
                        found = true;
                    }
                    k = k + 1;
                }
                if found {
                    count = count + 1;
                }
                i = i + 1;
            }
            assert(ops.take(i as int) =~= ops);
            usage.push(count);
            q = q + 1;
        }
        usage
    }
}

} // verus!
