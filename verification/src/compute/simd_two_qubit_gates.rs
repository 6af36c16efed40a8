//! Two-qubit gates on state vectors that only move amplitudes or flip their
//! signs: CNOT, CZ and SWAP.
//!
//! A state vector of length `d` describes `⌊log2 d⌋` qubits; amplitude `i`
//! belongs to the basis state whose qubit `q` is bit `q` of `i`. An
//! amplitude is held as the binary64 encodings of its real and imaginary
//! parts, so negation is exact: it flips both sign bits.

use vstd::prelude::*;
use crate::error::{MyQuatError, Result};

verus! {

/// A complex amplitude, as the binary64 encodings of its parts.
#[derive(Debug, Clone, Copy, PartialEq, Eq, Structural)]
pub struct Amplitude {
    pub re: u64,
    pub im: u64,
}

/// Sign bit of a binary64 encoding.
pub const SIGN: u64 = 0x8000000000000000u64;

/// The negated amplitude.
pub open spec fn negated(a: Amplitude) -> Amplitude {
    Amplitude { re: a.re ^ SIGN, im: a.im ^ SIGN }
}

/// ⌊log2 n⌋, and 0 for 0.
pub open spec fn log2_floor(n: nat) -> nat
    decreases n,
{
    if n <= 1 {
        0
    } else {
        1 + log2_floor(n / 2)
    }
}

/// Number of qubits that a state vector of length `len` describes: ⌊log2 len⌋
pub fn qubit_count(len: usize) -> (r: usize)
    ensures
        r == log2_floor(len as nat),
        r < usize::BITS,
{
    proof {
        vstd::layout::unsigned_int_max_values();
        lemma_log2_upper(len as nat, (usize::BITS - 1) as nat);
    }
    let mut m = len;
    let mut r: usize = 0;
    while m > 1
        invariant
            r + log2_floor(m as nat) == log2_floor(len as nat),
            log2_floor(len as nat) < usize::BITS,
        decreases m,
    {
        assert(log2_floor(m as nat) == 1 + log2_floor((m / 2) as nat));
        m = m / 2;
        r = r + 1;
    }
    r
}

/// Below 2 to the power `j + 1`, ⌊log2 n⌋ is at most `j`.
proof fn lemma_log2_upper(n: nat, j: nat)
    requires
        n < vstd::arithmetic::power2::pow2(j + 1),
    ensures
        log2_floor(n) <= j,
    decreases j,
{
    vstd::arithmetic::power2::lemma_pow2_unfold(j + 1);
    if n > 1 {
        if j > 0 {
            lemma_log2_upper(n / 2, (j - 1) as nat);
        } else {
            vstd::arithmetic::power2::lemma2_to64();
        }
    }
}

/// Bit `m` (a single-bit mask) of index `k` is set.
pub open spec fn has_bit(k: int, m: usize) -> bool {
    (k as usize) & m != 0
}

/// Index `k` with the bits of `m` flipped.
pub open spec fn flipped(k: int, m: usize) -> int {
    ((k as usize) ^ m) as int
}

/// The state after CNOT with control mask `cm` and target mask `tm`: each
/// amplitude whose control bit is set takes the amplitude with the target
/// bit flipped, where that one exists.
pub open spec fn cnot_state(s: Seq<Amplitude>, cm: usize, tm: usize) -> Seq<Amplitude> {
    Seq::new(
        s.len(),
        |k: int| if has_bit(k, cm) && flipped(k, tm) < s.len() { s[flipped(k, tm)] } else { s[k] },
    )
}

/// The state after CZ with masks `cm` and `tm`: each amplitude with both
/// bits set is negated.
pub open spec fn cz_state(s: Seq<Amplitude>, cm: usize, tm: usize) -> Seq<Amplitude> {
    Seq::new(s.len(), |k: int| if has_bit(k, cm) && has_bit(k, tm) { negated(s[k]) } else { s[k] })
}

/// The state after SWAP of the qubits with masks `m1` and `m2`: each
/// amplitude whose two bits differ takes the amplitude with both flipped.
pub open spec fn swap_state(s: Seq<Amplitude>, m1: usize, m2: usize) -> Seq<Amplitude> {
    Seq::new(
        s.len(),
        |k: int| if has_bit(k, m1) != has_bit(k, m2) { s[flipped(flipped(k, m1), m2)] } else { s[k] },
    )
}

/// Flipping a bit: flipping it again restores the index; other bits stay;
/// a clear bit raises the index and a set bit lowers it.
proof fn lemma_flip(k: usize, c: usize, t: usize)
    requires
        c < usize::BITS,
        t < usize::BITS,
        c != t,
    ensures
        (k ^ (1usize << t)) ^ (1usize << t) == k,
        ((k ^ (1usize << t)) & (1usize << c) != 0) == (k & (1usize << c) != 0),
        ((k ^ (1usize << t)) & (1usize << t) != 0) == (k & (1usize << t) == 0),
        (k & (1usize << t)) == 0 ==> (k ^ (1usize << t)) > k,
        (k & (1usize << t)) != 0 ==> (k ^ (1usize << t)) < k,
{
    assert((k ^ (1usize << t)) ^ (1usize << t) == k) by (bit_vector);
    assert(((k ^ (1usize << t)) & (1usize << c) != 0) == (k & (1usize << c) != 0)) by (bit_vector)
        requires
            c < usize::BITS,
            t < usize::BITS,
            c != t,
    ;
    assert(((k ^ (1usize << t)) & (1usize << t) != 0) == (k & (1usize << t) == 0)) by (bit_vector)
        requires
            t < usize::BITS,
    ;
    assert((k & (1usize << t)) == 0 ==> (k ^ (1usize << t)) > k) by (bit_vector)
        requires
            t < usize::BITS,
    ;
    assert((k & (1usize << t)) != 0 ==> (k ^ (1usize << t)) < k) by (bit_vector)
        requires
            t < usize::BITS,
    ;
}

/// Check the qubits of a two-qubit gate on a state of length `len`: both
/// among its qubits, and different; gives the number of qubits
pub fn check_qubit_pair(len: usize, control: usize, target: usize) -> (r: Result<usize>)
    ensures
        match r {
            Ok(n) => n == log2_floor(len as nat) && n < usize::BITS && control < n && target < n && control != target,
            Err(e) => e matches MyQuatError::InvalidParameter { message } && message@ == (if control >= log2_floor(
                len as nat,
            ) || target >= log2_floor(len as nat) {
                "Qubit index out of range"@
            } else {
                "Control and target must be different"@
            }),
        },
{
    let n = qubit_count(len);
    if control >= n || target >= n {
        return Err(MyQuatError::invalid_parameter("Qubit index out of range"));
    }
    if control == target {
        return Err(MyQuatError::invalid_parameter("Control and target must be different"));
    }
    Ok(n)
}


/// State after the CNOT pairs below `i` were exchanged.
pub open spec fn cnot_partial(s: Seq<Amplitude>, cm: usize, tm: usize, i: int, k: int) -> Amplitude {
    if has_bit(k, cm) && !has_bit(k, tm) && k < i && flipped(k, tm) < s.len() {
        s[flipped(k, tm)]
    } else if has_bit(k, cm) && has_bit(k, tm) && flipped(k, tm) < i {
        s[flipped(k, tm)]
    } else {
        s[k]
    }
}

/// Apply CNOT: every amplitude whose control bit is set is exchanged with
/// the one whose target bit is flipped. Fails when a qubit is beyond the
/// state's qubits, or when control and target coincide
pub fn apply_cnot(state: &mut Vec<Amplitude>, control: usize, target: usize) -> (r: Result<()>)
    ensures
        match r {
            Ok(()) => {
                &&& control < log2_floor(old(state)@.len()) && target < log2_floor(old(state)@.len())
                &&& control != target
                &&& final(state)@ == cnot_state(old(state)@, 1usize << control, 1usize << target)
            },
            Err(e) => {
                &&& final(state)@ == old(state)@
                &&& e matches MyQuatError::InvalidParameter { message } && message@ == (if control >= log2_floor(
                    old(state)@.len(),
                ) || target >= log2_floor(old(state)@.len()) {
                    "Qubit index out of range"@
                } else {
                    "Control and target must be different"@
                })
            },
        },
{
    let n = match check_qubit_pair(state.len(), control, target) {
        Ok(n) => n,
        Err(e) => {
            return Err(e);
        },
    };
    let dim = state.len();
    let cm: usize = 1usize << control;
    let tm: usize = 1usize << target;
    let ghost old_s = state@;
    let mut i: usize = 0;
    while i < dim
        invariant
            i <= dim,
            dim == state@.len(),
            old_s.len() == dim,
            control < usize::BITS,
            target < usize::BITS,
            control != target,
            cm == 1usize << control,
            tm == 1usize << target,
            forall|k: int| 0 <= k < dim ==> #[trigger] state@[k] == cnot_partial(old_s, cm, tm, i as int, k),
        decreases dim - i,
    {
        proof {
            lemma_flip(i, control, target);
        }
        if (i & cm) != 0 && (i & tm) == 0 {
            let j = i ^ tm;
            if j < dim {
                proof {
                    lemma_flip(j, control, target);
                }
                let a = state[i];
                let b = state[j];
                state.set(i, b);
                state.set(j, a);
            }
        }
        proof {
            assert forall|k: int| 0 <= k < dim implies #[trigger] state@[k] == cnot_partial(
                old_s,
                cm,
                tm,
                i + 1,
                k,
            ) by {
                lemma_flip(k as usize, control, target);
            }
        }
        i = i + 1;
    }
    proof {
        assert forall|k: int| 0 <= k < dim implies #[trigger] state@[k] == cnot_state(old_s, cm, tm)[k] by {
            lemma_flip(k as usize, control, target);
        }
        assert(state@ =~= cnot_state(old_s, cm, tm));
    }
    Ok(())
}

/// Apply CZ: every amplitude whose control and target bits are both set is
/// negated. Fails when a qubit is beyond the state's qubits, or when
/// control and target coincide
pub fn apply_cz(state: &mut Vec<Amplitude>, control: usize, target: usize) -> (r: Result<()>)
    ensures
        match r {
            Ok(()) => {
                &&& control < log2_floor(old(state)@.len()) && target < log2_floor(old(state)@.len())
                &&& control != target
                &&& final(state)@ == cz_state(old(state)@, 1usize << control, 1usize << target)
            },
            Err(e) => {
                &&& final(state)@ == old(state)@
                &&& e matches MyQuatError::InvalidParameter { message } && message@ == (if control >= log2_floor(
                    old(state)@.len(),
                ) || target >= log2_floor(old(state)@.len()) {
                    "Qubit index out of range"@
                } else {
                    "Control and target must be different"@
                })
            },
        },
{
    let n = match check_qubit_pair(state.len(), control, target) {
        Ok(n) => n,
        Err(e) => {
            return Err(e);
        },
    };
    let dim = state.len();
    let cm: usize = 1usize << control;
    let tm: usize = 1usize << target;
    let ghost old_s = state@;
    let mut i: usize = 0;
    while i < dim
        invariant
            i <= dim,
            dim == state@.len(),
            old_s.len() == dim,
            forall|k: int|
                0 <= k < dim ==> #[trigger] state@[k] == (if k < i && has_bit(k, cm) && has_bit(k, tm) {
                    negated(old_s[k])
                } else {
                    old_s[k]
                }),
        decreases dim - i,
    {
        if (i & cm) != 0 && (i & tm) != 0 {
            let a = state[i];
            state.set(i, Amplitude { re: a.re ^ SIGN, im: a.im ^ SIGN });
        }
        i = i + 1;
    }
    assert(state@ =~= cz_state(old_s, cm, tm));
    Ok(())
}

/// Flipping two different bits: flipping both again restores the index,
/// and whether the two bits differ is kept.
proof fn lemma_flip_two(k: usize, a: usize, b: usize)
    requires
        a < usize::BITS,
        b < usize::BITS,
        a != b,
    ensures
        ((k ^ (1usize << a)) ^ (1usize << b)) ^ (1usize << a) ^ (1usize << b) == k,
        (((k ^ (1usize << a)) ^ (1usize << b)) & (1usize << a) != 0) == (k & (1usize << a) == 0),
        (((k ^ (1usize << a)) ^ (1usize << b)) & (1usize << b) != 0) == (k & (1usize << b) == 0),
        ((k & (1usize << a) != 0) != (k & (1usize << b) != 0)) ==> ((k ^ (1usize << a)) ^ (1usize << b)) != k,
{
    assert(((k ^ (1usize << a)) ^ (1usize << b)) ^ (1usize << a) ^ (1usize << b) == k) by (bit_vector);
    assert((((k ^ (1usize << a)) ^ (1usize << b)) & (1usize << a) != 0) == (k & (1usize << a) == 0)) by (bit_vector)
        requires
            a < usize::BITS,
            b < usize::BITS,
            a != b,
    ;
    assert((((k ^ (1usize << a)) ^ (1usize << b)) & (1usize << b) != 0) == (k & (1usize << b) == 0)) by (bit_vector)
        requires
            a < usize::BITS,
            b < usize::BITS,
            a != b,
    ;
    assert(((k & (1usize << a) != 0) != (k & (1usize << b) != 0)) ==> ((k ^ (1usize << a)) ^ (1usize << b)) != k)
        by (bit_vector)
        requires
            a < usize::BITS,
            b < usize::BITS,
            a != b,
    ;
}

/// Every pair of amplitudes exchanged by a SWAP of the qubits with masks
/// `m1` and `m2` lies within a state of length `len`.
pub open spec fn swap_pairs_fit(len: nat, m1: usize, m2: usize) -> bool {
    forall|k: int|
        0 <= k < len && has_bit(k, m1) != has_bit(k, m2) && k < flipped(flipped(k, m1), m2) ==> flipped(
            flipped(k, m1),
            m2,
        ) < len
}

/// State after the SWAP pairs below `i` were exchanged.
pub open spec fn swap_partial(s: Seq<Amplitude>, m1: usize, m2: usize, i: int, k: int) -> Amplitude {
    let p = flipped(flipped(k, m1), m2);
    if has_bit(k, m1) != has_bit(k, m2) && ((k < p && k < i) || (p < k && p < i)) {
        s[p]
    } else {
        s[k]
    }
}

/// Apply SWAP: every amplitude whose two qubit bits differ is exchanged
/// with the one having both flipped. Fails when a qubit is beyond the
/// state's qubits; swapping a qubit with itself changes nothing
pub fn apply_swap(state: &mut Vec<Amplitude>, qubit1: usize, qubit2: usize) -> (r: Result<()>)
    requires
        qubit1 < log2_floor(old(state)@.len()) && qubit2 < log2_floor(old(state)@.len()) ==> swap_pairs_fit(
            old(state)@.len(),
            1usize << qubit1,
            1usize << qubit2,
        ),
    ensures
        match r {
            Ok(()) => {
                &&& qubit1 < log2_floor(old(state)@.len()) && qubit2 < log2_floor(old(state)@.len())
                &&& final(state)@ == (if qubit1 == qubit2 {
                    old(state)@
                } else {
                    swap_state(old(state)@, 1usize << qubit1, 1usize << qubit2)
                })
            },
            Err(e) => {
                &&& final(state)@ == old(state)@
                &&& !(qubit1 < log2_floor(old(state)@.len()) && qubit2 < log2_floor(old(state)@.len()))
                &&& e matches MyQuatError::InvalidParameter { message } && message@ == "Qubit index out of range"@
            },
        },
{
    let n = qubit_count(state.len());
    if qubit1 >= n || qubit2 >= n {
        return Err(MyQuatError::invalid_parameter("Qubit index out of range"));
    }
    if qubit1 == qubit2 {
        return Ok(());
    }
    let dim = state.len();
    let m1: usize = 1usize << qubit1;
    let m2: usize = 1usize << qubit2;
    let ghost old_s = state@;
    let mut i: usize = 0;
    while i < dim
        invariant
            i <= dim,
            dim == state@.len(),
            old_s.len() == dim,
            qubit1 < usize::BITS,
            qubit2 < usize::BITS,
            qubit1 != qubit2,
            m1 == 1usize << qubit1,
            m2 == 1usize << qubit2,
            swap_pairs_fit(dim as nat, m1, m2),
            forall|k: int| 0 <= k < dim ==> #[trigger] state@[k] == swap_partial(old_s, m1, m2, i as int, k),
        decreases dim - i,
    {
        let bit1 = (i & m1) != 0;
        let bit2 = (i & m2) != 0;
        proof {
            lemma_flip_two(i, qubit1, qubit2);
        }
        if bit1 != bit2 {
            let j = i ^ m1 ^ m2;
            if i < j {
                assert(has_bit(i as int, m1) != has_bit(i as int, m2));
                assert(j < dim);
                proof {
                    lemma_flip_two(j, qubit1, qubit2);
                }
                let a = state[i];
                let b = state[j];
                state.set(i, b);
                state.set(j, a);
            }
        }
        proof {
            assert forall|k: int| 0 <= k < dim implies #[trigger] state@[k] == swap_partial(
                old_s,
                m1,
                m2,
                i + 1,
                k,
            ) by {
                lemma_flip_two(k as usize, qubit1, qubit2);
            }
        }
        i = i + 1;
    }
    proof {
        assert forall|k: int| 0 <= k < dim implies #[trigger] state@[k] == swap_state(old_s, m1, m2)[k] by {
            lemma_flip_two(k as usize, qubit1, qubit2);
        }
        assert(state@ =~= swap_state(old_s, m1, m2));
    }
    Ok(())
}

/// CNOT undoes itself: applying it twice with the same qubits restores
/// every state.
pub proof fn law_cnot_involution(s: Seq<Amplitude>, control: usize, target: usize)
    requires
        control < usize::BITS,
        target < usize::BITS,
        control != target,
        s.len() <= usize::MAX,
    ensures
        cnot_state(cnot_state(s, 1usize << control, 1usize << target), 1usize << control, 1usize << target) == s,
{
    let cm = 1usize << control;
    let tm = 1usize << target;
    let s1 = cnot_state(s, cm, tm);
    let s2 = cnot_state(s1, cm, tm);
    assert forall|k: int| 0 <= k < s.len() implies #[trigger] s2[k] == s[k] by {
        let ku = k as usize;
        lemma_flip(ku, control, target);
        let f = ku ^ tm;
        assert(flipped(k, tm) == f as int);
        assert(has_bit(f as int, cm) == has_bit(k, cm));
        assert(flipped(f as int, tm) == k);
        if has_bit(k, cm) && flipped(k, tm) < s.len() {
            assert(s1[f as int] == s[k]);
        }
    }
    assert(s2 =~= s);
}

/// CZ undoes itself: negating an amplitude twice restores it.
pub proof fn law_cz_involution(s: Seq<Amplitude>, control: usize, target: usize)
    ensures
        cz_state(cz_state(s, 1usize << control, 1usize << target), 1usize << control, 1usize << target) == s,
{
    let cm = 1usize << control;
    let tm = 1usize << target;
    let s2 = cz_state(cz_state(s, cm, tm), cm, tm);
    assert forall|k: int| 0 <= k < s.len() implies #[trigger] s2[k] == s[k] by {
        let re = s[k].re;
        let im = s[k].im;
        assert(re ^ SIGN ^ SIGN == re) by (bit_vector);
        assert(im ^ SIGN ^ SIGN == im) by (bit_vector);
    }
    assert(s2 =~= s);
}

/// SWAP undoes itself: applying it twice with the same qubits restores a
/// state whose exchanged pairs all lie within it.
pub proof fn law_swap_involution(s: Seq<Amplitude>, qubit1: usize, qubit2: usize)
    requires
        qubit1 < usize::BITS,
        qubit2 < usize::BITS,
        qubit1 != qubit2,
        s.len() <= usize::MAX,
        swap_pairs_fit(s.len(), 1usize << qubit1, 1usize << qubit2),
    ensures
        swap_state(swap_state(s, 1usize << qubit1, 1usize << qubit2), 1usize << qubit1, 1usize << qubit2) == s,
{
    let m1 = 1usize << qubit1;
    let m2 = 1usize << qubit2;
    let s1 = swap_state(s, m1, m2);
    let s2 = swap_state(s1, m1, m2);
    assert forall|k: int| 0 <= k < s.len() implies #[trigger] s2[k] == s[k] by {
        lemma_flip_two(k as usize, qubit1, qubit2);
        let p = flipped(flipped(k, m1), m2);
        if has_bit(k, m1) != has_bit(k, m2) {
            lemma_flip_two(p as usize, qubit1, qubit2);
            assert(0 <= p < s.len());
        }
    }
    assert(s2 =~= s);
}

} // verus!
