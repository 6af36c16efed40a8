//! Index arithmetic for density matrices over a subset of qubits.

use vstd::prelude::*;

verus! {

/// Number of qubits below `q` that are kept (listed in `kept`).
pub open spec fn kept_below(kept: Seq<usize>, q: nat) -> nat
    decreases q,
{
    if q == 0 {
        0
    } else {
        kept_below(kept, (q - 1) as nat) + if kept.contains((q - 1) as usize) { 1nat } else { 0nat }
    }
}

/// Bit `k` of `x`.
pub open spec fn bit_at(x: usize, k: usize) -> usize {
    (x >> k) & 1
}

/// Bit `q` of the full index: kept qubits take, in increasing order, the
/// bits of the reduced index; the other qubits take the bits of the traced
/// index.
pub open spec fn full_bit(reduced: usize, traced: usize, kept: Seq<usize>, q: usize) -> usize {
    if kept.contains(q) {
        bit_at(reduced, kept_below(kept, q as nat) as usize)
    } else {
        bit_at(traced, (q - kept_below(kept, q as nat)) as usize)
    }
}

proof fn lemma_kept_below_bound(kept: Seq<usize>, q: nat)
    ensures
        kept_below(kept, q) <= q,
    decreases q,
{
    if q > 0 {
        lemma_kept_below_bound(kept, (q - 1) as nat);
    }
}

proof fn lemma_put_bit(full: usize, b: usize, q: usize, x: usize)
    by (bit_vector)
    requires
        full >> q == 0,
        b <= 1,
        q < usize::BITS,
    ensures
        ((full | (b << q)) >> q) & 1 == b,
        x < q ==> ((full | (b << q)) >> x) & 1 == (full >> x) & 1,
        (full | (b << q)) >> (q + 1) == 0,
{
}

fn contains_index(s: &[usize], x: usize) -> (r: bool)
    ensures
        r == s@.contains(x),
{
    let mut i: usize = 0;
    while i < s.len()
        invariant
            i <= s.len(),
            forall|j: int| 0 <= j < i ==> s@[j] != x,
        decreases s.len() - i,
    {
        if s[i] == x {
            return true;
        }
        i = i + 1;
    }
    false
}

/// Combine a reduced-system index with a traced-system index into the full
/// index: qubit `q` of the full index takes the next bit of the reduced index
/// when `q` is kept and the next bit of the traced index otherwise
pub fn combine_states(
    reduced_idx: usize,
    traced_idx: usize,
    remaining_qubits: &[usize],
    traced_qubits: &[usize],
) -> (r: usize)
    requires
        remaining_qubits@.len() + traced_qubits@.len() < usize::BITS,
    ensures
        forall|q: usize| q < remaining_qubits@.len() + traced_qubits@.len() ==>
            #[trigger] bit_at(r, q) == full_bit(reduced_idx, traced_idx, remaining_qubits@, q),
        r >> ((remaining_qubits@.len() + traced_qubits@.len()) as usize) == 0,
{
    let mut full_idx: usize = 0;
    let mut reduced_bit: usize = 0;
    let mut traced_bit: usize = 0;
    let total_qubits = remaining_qubits.len() + traced_qubits.len();
    let ghost kept = remaining_qubits@;
    let mut qubit: usize = 0;
    assert(full_idx >> 0usize == 0) by (bit_vector)
        requires full_idx == 0;
    while qubit < total_qubits
        invariant
            total_qubits == remaining_qubits@.len() + traced_qubits@.len(),
            total_qubits < usize::BITS,
            kept == remaining_qubits@,
            qubit <= total_qubits,
            reduced_bit == kept_below(kept, qubit as nat),
            traced_bit + reduced_bit == qubit,
            full_idx >> qubit == 0,
            forall|x: usize| x < qubit ==> #[trigger] bit_at(full_idx, x) == full_bit(reduced_idx, traced_idx, kept, x),
        decreases total_qubits - qubit,
    {
        proof {
            lemma_kept_below_bound(kept, qubit as nat);
        }
        let is_kept = contains_index(remaining_qubits, qubit);
        let bit_value = if is_kept {
            let bit = (reduced_idx >> reduced_bit) & 1;
            reduced_bit = reduced_bit + 1;
            bit
        } else {
            let bit = (traced_idx >> traced_bit) & 1;
            traced_bit = traced_bit + 1;
            bit
        };
        assert(bit_value <= 1) by (bit_vector)
            requires bit_value == (reduced_idx >> ((reduced_bit - 1) as usize)) & 1 || bit_value == (traced_idx >> ((traced_bit - 1) as usize)) & 1;
        let ghost old_full = full_idx;
        proof {
            assert(bit_value == full_bit(reduced_idx, traced_idx, kept, qubit));
        }
        full_idx = full_idx | (bit_value << qubit);
        proof {
            assert forall|x: usize| x < qubit + 1 implies #[trigger] bit_at(full_idx, x) == full_bit(reduced_idx, traced_idx, kept, x) by {
                lemma_put_bit(old_full, bit_value, qubit, x);
                if x < qubit {
                    assert(bit_at(old_full, x) == full_bit(reduced_idx, traced_idx, kept, x));
                }
            }
            lemma_put_bit(old_full, bit_value, qubit, 0);
        }
        qubit = qubit + 1;
    }
    full_idx
}

} // verus!
