//! Choice of the vector width for state-vector kernels, and the pairs of
//! amplitudes that a single-qubit gate combines.

use vstd::prelude::*;

verus! {

/// Number of complex amplitudes processed together: four when the
/// processor offers 256-bit vectors with fused multiply-add, one otherwise
pub fn lane_width(avx2_and_fma: bool) -> (r: usize)
    ensures
        r == if avx2_and_fma { 4usize } else { 1usize },
{
    if avx2_and_fma {
        4
    } else {
        1
    }
}

/// The amplitude pairs `(a, a + step)` with `a < m`, bit `step` of `a`
/// clear and `a + step` inside a state of length `dim`, in increasing `a`.
pub open spec fn pair_schedule(dim: usize, step: usize, m: nat) -> Seq<(usize, usize)>
    decreases m,
{
    if m == 0 {
        Seq::empty()
    } else {
        let a = (m - 1) as nat;
        let before = pair_schedule(dim, step, a);
        if (a as usize) & step == 0 && a + step < dim && a < dim {
            before.push((a as usize, (a + step) as usize))
        } else {
            before
        }
    }
}

/// The pairs of amplitudes that a single-qubit gate on qubit `qubit_index`
/// of `num_qubits` (qubit 0 the most significant) combines in a state of
/// length `dim`: the index with the qubit's bit clear and the one with it
/// set, in increasing order
pub fn amplitude_pairs(dim: usize, num_qubits: usize, qubit_index: usize) -> (r: Vec<(usize, usize)>)
    requires
        qubit_index < num_qubits,
        num_qubits - 1 - qubit_index < usize::BITS - 1,
    ensures
        r@ == pair_schedule(dim, 1usize << ((num_qubits - 1 - qubit_index) as usize), dim as nat),
{
    let shift = num_qubits - 1 - qubit_index;
    let step: usize = 1usize << shift;
    let mut r: Vec<(usize, usize)> = Vec::new();
    let mut a: usize = 0;
    while a < dim
        invariant
            a <= dim,
            step == 1usize << shift,
            r@ == pair_schedule(dim, step, a as nat),
        decreases dim - a,
    {
        if a & step == 0 && step < dim && a < dim - step {
            r.push((a, a + step));
        }
        a = a + 1;
    }
    r
}

/// What every scheduled pair looks like: its second index is its first
/// plus `step`, inside the state, with bit `step` clear in the first; the
/// first indices increase strictly.
pub proof fn lemma_schedule_shape(dim: usize, step: usize, m: nat)
    ensures
        forall|k: int|
            0 <= k < pair_schedule(dim, step, m).len() ==> {
                let p = #[trigger] pair_schedule(dim, step, m)[k];
                &&& p.1 == p.0 + step
                &&& p.1 < dim
                &&& p.0 & step == 0
                &&& p.0 < m
            },
        forall|j: int, k: int|
            0 <= j < k < pair_schedule(dim, step, m).len() ==> pair_schedule(dim, step, m)[j].0
                < pair_schedule(dim, step, m)[k].0,
    decreases m,
{
    if m > 0 {
        let a = (m - 1) as nat;
        lemma_schedule_shape(dim, step, a);
        let before = pair_schedule(dim, step, a);
        let now = pair_schedule(dim, step, m);
        if (a as usize) & step == 0 && a + step < dim && a < dim {
            assert(now == before.push((a as usize, (a + step) as usize)));
            assert((a as usize) as nat == a);
            assert forall|k: int| 0 <= k < before.len() implies now[k] == before[k] && now[k].0 < a by {}
        } else {
            assert(now == before);
        }
    }
}

/// The pairs that a single-qubit gate combines are disjoint: no amplitude
/// index occurs twice among them, so each amplitude is updated once.
pub proof fn law_pairs_disjoint(dim: usize, shift: usize)
    requires
        shift < usize::BITS - 1,
    ensures
        ({
            let s = pair_schedule(dim, 1usize << shift, dim as nat);
            forall|j: int, k: int|
                0 <= j < s.len() && 0 <= k < s.len() && j != k ==> {
                    &&& s[j].0 != s[k].0
                    &&& s[j].1 != s[k].1
                    &&& s[j].0 != s[k].1
                }
        }),
{
    let step = 1usize << shift;
    let s = pair_schedule(dim, step, dim as nat);
    lemma_schedule_shape(dim, step, dim as nat);
    assert forall|j: int, k: int| 0 <= j < s.len() && 0 <= k < s.len() && j != k implies {
        &&& s[j].0 != s[k].0
        &&& s[j].1 != s[k].1
        &&& s[j].0 != s[k].1
    } by {
        let pj = s[j];
        let pk = s[k];
        if j < k {
            assert(pj.0 < pk.0);
        } else {
            assert(pk.0 < pj.0);
        }
        let a = pk.0;
        let b = pk.1;
        assert(b == a + step);
        assert((a & step) == 0);
        assert(b & step != 0) by (bit_vector)
            requires
                step == 1usize << shift,
                shift < usize::BITS - 1,
                a & step == 0,
                b == a + step,
        ;
        assert(pj.0 & step == 0);
    }
}

} // verus!
