//! Schedules of Trotter-Suzuki product formulas: which Hamiltonian term is
//! applied at each position, with which share of the time step, and under
//! which order index.
//!
//! A term is named by its index among the Hamiltonian's `n` terms. The time
//! of an application is a segment's time (the whole step `dt`, or for the
//! fourth-order formula `p dt` or `(1 - 4p) dt`), halved where marked.

use vstd::prelude::*;

verus! {

/// The time of the second-order segment an application belongs to.
#[derive(Debug, Clone, Copy, PartialEq, Eq, Structural)]
pub enum TrotterSegment {
    /// The whole time step `dt`
    Whole,
    /// `p dt`, with `p` the fourth-order Suzuki coefficient
    Outer,
    /// `(1 - 4p) dt`
    Inner,
}

/// One application of a Hamiltonian term in a product formula.
#[derive(Debug, Clone, Copy, PartialEq, Eq, Structural)]
pub struct ScheduledStep {
    /// Index of the Hamiltonian term
    pub term: usize,
    /// Order in the sequence
    pub order: usize,
    /// Segment whose time the application uses
    pub segment: TrotterSegment,
    /// Whether it uses half of that time
    pub half: bool,
}

/// First-order step `s` of `n` terms: each term once, for the whole step.
pub open spec fn first_order_block(s: nat, n: nat) -> Seq<ScheduledStep> {
    Seq::new(
        n,
        |t: int| ScheduledStep { term: t as usize, order: (s * n + t) as usize, segment: TrotterSegment::Whole, half: false },
    )
}

/// The first `k` first-order steps.
pub open spec fn first_order_schedule(n: nat, k: nat) -> Seq<ScheduledStep>
    decreases k,
{
    if k == 0 {
        Seq::empty()
    } else {
        first_order_schedule(n, (k - 1) as nat) + first_order_block((k - 1) as nat, n)
    }
}

/// A symmetric (Strang) segment of `n` terms with order indices from
/// `base`: the first `n - 1` terms for half the segment's time, the last
/// term for all of it, then the first `n - 1` terms in reverse for half.
pub open spec fn strang_segment(base: nat, n: nat, segment: TrotterSegment) -> Seq<ScheduledStep> {
    Seq::new(
        (n - 1) as nat,
        |t: int| ScheduledStep { term: t as usize, order: (base + t) as usize, segment, half: true },
    ) + seq![ScheduledStep { term: (n - 1) as usize, order: (base + n - 1) as usize, segment, half: false }]
        + Seq::new(
        (n - 1) as nat,
        |i: int| ScheduledStep { term: (n - 2 - i) as usize, order: (base + n + i) as usize, segment, half: true },
    )
}

/// The first `k` second-order steps; step `s` has order indices from
/// `s (2n - 1)`.
pub open spec fn second_order_schedule(n: nat, k: nat) -> Seq<ScheduledStep>
    decreases k,
{
    if k == 0 {
        Seq::empty()
    } else {
        second_order_schedule(n, (k - 1) as nat) + strang_segment(((k - 1) * (2 * n - 1)) as nat, n, TrotterSegment::Whole)
    }
}

/// Fourth-order (Suzuki) step `s`: five symmetric segments, of times
/// `p dt`, `p dt`, `(1 - 4p) dt`, `p dt`, `p dt`, with order indices
/// counting on from `5 s n`.
pub open spec fn fourth_order_block(s: nat, n: nat) -> Seq<ScheduledStep> {
    let c = s * n * 5;
    let w = (2 * n - 1) as nat;
    strang_segment(c, n, TrotterSegment::Outer) + strang_segment(c + w, n, TrotterSegment::Outer) + strang_segment(
        c + 2 * w,
        n,
        TrotterSegment::Inner,
    ) + strang_segment(c + 3 * w, n, TrotterSegment::Outer) + strang_segment(c + 4 * w, n, TrotterSegment::Outer)
}

/// The first `k` fourth-order steps.
pub open spec fn fourth_order_schedule(n: nat, k: nat) -> Seq<ScheduledStep>
    decreases k,
{
    if k == 0 {
        Seq::empty()
    } else {
        fourth_order_schedule(n, (k - 1) as nat) + fourth_order_block((k - 1) as nat, n)
    }
}

/// Build the schedule of the first-order Trotter formula: in each of the
/// `num_steps` steps, every term in turn for the whole step, with order
/// index `step * n + term`
pub fn first_order_steps(num_terms: usize, num_steps: usize) -> (r: Vec<ScheduledStep>)
    requires
        num_steps * num_terms <= usize::MAX,
    ensures
        r@ == first_order_schedule(num_terms as nat, num_steps as nat),
{
    let n = num_terms;
    let mut r: Vec<ScheduledStep> = Vec::new();
    let mut s: usize = 0;
    while s < num_steps
        invariant
            s <= num_steps,
            num_steps * n <= usize::MAX,
            r@ == first_order_schedule(n as nat, s as nat),
        decreases num_steps - s,
    {
        let ghost before = r@;
        proof {
            assert(s * n + n <= num_steps * n) by (nonlinear_arith)
                requires
                    s < num_steps,
            ;
        }
        let mut t: usize = 0;
        while t < n
            invariant
                t <= n,
                s < num_steps,
                s * n + n <= num_steps * n <= usize::MAX,
                r@ == before + first_order_block(s as nat, n as nat).take(t as int),
            decreases n - t,
        {
            r.push(ScheduledStep { term: t, order: s * n + t, segment: TrotterSegment::Whole, half: false });
            t = t + 1;
            assert(r@ =~= before + first_order_block(s as nat, n as nat).take(t as int));
        }
        assert(first_order_block(s as nat, n as nat).take(n as int) =~= first_order_block(s as nat, n as nat));
        s = s + 1;
    }
    r
}

/// Append the symmetric segment of `n` terms with order indices from
/// `base`; the next free order index.
fn push_strang_segment(r: &mut Vec<ScheduledStep>, base: usize, n: usize, segment: TrotterSegment) -> (next: usize)
    requires
        n >= 1,
        base + 2 * n - 1 <= usize::MAX,
    ensures
        final(r)@ == old(r)@ + strang_segment(base as nat, n as nat, segment),
        next == base + 2 * n - 1,
{
    let ghost start = r@;
    let ghost fwd = Seq::new(
        (n - 1) as nat,
        |t: int| ScheduledStep { term: t as usize, order: (base + t) as usize, segment, half: true },
    );
    let ghost bwd = Seq::new(
        (n - 1) as nat,
        |i: int| ScheduledStep { term: (n - 2 - i) as usize, order: (base + n + i) as usize, segment, half: true },
    );
    let mut order = base;
    let mut t: usize = 0;
    while t < n - 1
        invariant
            t <= n - 1,
            n >= 1,
            base + 2 * n - 1 <= usize::MAX,
            order == base + t,
            fwd == Seq::new(
                (n - 1) as nat,
                |t: int| ScheduledStep { term: t as usize, order: (base + t) as usize, segment, half: true },
            ),
            r@ == start + fwd.take(t as int),
        decreases n - 1 - t,
    {
        r.push(ScheduledStep { term: t, order, segment, half: true });
        order = order + 1;
        t = t + 1;
        assert(r@ =~= start + fwd.take(t as int));
    }
    assert(fwd.take((n - 1) as int) =~= fwd);
    r.push(ScheduledStep { term: n - 1, order, segment, half: false });
    order = order + 1;
    let ghost mid = r@;
    let mut i: usize = 0;
    while i < n - 1
        invariant
            i <= n - 1,
            n >= 1,
            base + 2 * n - 1 <= usize::MAX,
            order == base + n + i,
            bwd == Seq::new(
                (n - 1) as nat,
                |i: int| ScheduledStep { term: (n - 2 - i) as usize, order: (base + n + i) as usize, segment, half: true },
            ),
            r@ == mid + bwd.take(i as int),
        decreases n - 1 - i,
    {
        r.push(ScheduledStep { term: n - 2 - i, order, segment, half: true });
        order = order + 1;
        i = i + 1;
        assert(r@ =~= mid + bwd.take(i as int));
    }
    assert(bwd.take((n - 1) as int) =~= bwd);
    assert(r@ =~= start + strang_segment(base as nat, n as nat, segment));
    order
}

/// Build the schedule of the second-order (Strang) formula: each of the
/// `num_steps` steps is one symmetric segment of the whole step, with order
/// indices from `step * (2n - 1)`
pub fn second_order_steps(num_terms: usize, num_steps: usize) -> (r: Vec<ScheduledStep>)
    requires
        num_steps == 0 || num_terms >= 1,
        num_steps * (2 * num_terms - 1) <= usize::MAX,
    ensures
        r@ == second_order_schedule(num_terms as nat, num_steps as nat),
{
    let n = num_terms;
    let mut r: Vec<ScheduledStep> = Vec::new();
    let mut s: usize = 0;
    while s < num_steps
        invariant
            s <= num_steps,
            num_steps == 0 || n >= 1,
            num_steps * (2 * n - 1) <= usize::MAX,
            r@ == second_order_schedule(n as nat, s as nat),
        decreases num_steps - s,
    {
        proof {
            assert(2 * n - 1 <= num_steps * (2 * n - 1)) by (nonlinear_arith)
                requires
                    num_steps >= 1,
                    n >= 1,
            ;
        }
        let w = n + (n - 1);
        proof {
            assert(s * w + w <= num_steps * w) by (nonlinear_arith)
                requires
                    s < num_steps,
            ;
        }
        let base = s * w;
        let _ = push_strang_segment(&mut r, base, n, TrotterSegment::Whole);
        s = s + 1;
    }
    r
}

/// Build the schedule of the fourth-order Suzuki formula: each of the
/// `num_steps` steps is five symmetric segments, of times `p dt`, `p dt`,
/// `(1 - 4p) dt`, `p dt`, `p dt`, with order indices counting on from
/// `5 * step * n`
pub fn fourth_order_steps(num_terms: usize, num_steps: usize) -> (r: Vec<ScheduledStep>)
    requires
        num_steps == 0 || num_terms >= 1,
        num_steps == 0 || (num_steps - 1) * num_terms * 5 + 5 * (2 * num_terms - 1) <= usize::MAX,
    ensures
        r@ == fourth_order_schedule(num_terms as nat, num_steps as nat),
{
    let n = num_terms;
    let mut r: Vec<ScheduledStep> = Vec::new();
    let mut s: usize = 0;
    while s < num_steps
        invariant
            s <= num_steps,
            num_steps == 0 || n >= 1,
            num_steps == 0 || (num_steps - 1) * n * 5 + 5 * (2 * n - 1) <= usize::MAX,
            r@ == fourth_order_schedule(n as nat, s as nat),
        decreases num_steps - s,
    {
        proof {
            lemma_fourth_room(s as nat, num_steps as nat, n as nat);
        }
        let ghost before = r@;
        let ghost w = (2 * n - 1) as nat;
        let c = s * n * 5;
        let c1 = push_strang_segment(&mut r, c, n, TrotterSegment::Outer);
        let c2 = push_strang_segment(&mut r, c1, n, TrotterSegment::Outer);
        let c3 = push_strang_segment(&mut r, c2, n, TrotterSegment::Inner);
        let c4 = push_strang_segment(&mut r, c3, n, TrotterSegment::Outer);
        let _ = push_strang_segment(&mut r, c4, n, TrotterSegment::Outer);
        proof {
            assert(c1 == c + w && c2 == c + 2 * w && c3 == c + 3 * w && c4 == c + 4 * w);
            assert(r@ =~= before + fourth_order_block(s as nat, n as nat));
        }
        s = s + 1;
    }
    r
}

/// Room for the order indices of fourth-order step `s` of `k`.
proof fn lemma_fourth_room(s: nat, k: nat, n: nat)
    requires
        s < k,
        n >= 1,
        (k - 1) * n * 5 + 5 * (2 * n - 1) <= usize::MAX,
    ensures
        s * n <= s * n * 5,
        s * n * 5 + 5 * (2 * n - 1) <= usize::MAX,
{
    assert(s * n * 5 <= (k - 1) * n * 5) by (nonlinear_arith)
        requires
            s <= k - 1,
    ;
    assert(s * n <= s * n * 5) by (nonlinear_arith);
}

/// A symmetric segment reads the same forwards and backwards: the term and
/// the share of time at each position equal those at the mirrored position,
/// and only the middle application takes the whole time.
pub proof fn law_strang_segment_symmetric(base: nat, n: nat, segment: TrotterSegment)
    requires
        n >= 1,
        base + 2 * n - 1 <= usize::MAX,
    ensures
        strang_segment(base, n, segment).len() == 2 * n - 1,
        forall|j: int|
            #![trigger strang_segment(base, n, segment)[j]]
            0 <= j < 2 * n - 1 ==> {
                let s = strang_segment(base, n, segment);
                &&& s[j].term == s[2 * n - 2 - j].term
                &&& s[j].half == s[2 * n - 2 - j].half
                &&& s[j].half == (j != n - 1)
                &&& s[j].segment == segment
                &&& s[j].order == base + j
            },
{
    let s = strang_segment(base, n, segment);
    assert forall|j: int| #![trigger s[j]] 0 <= j < 2 * n - 1 implies {
        &&& s[j].term == s[2 * n - 2 - j].term
        &&& s[j].half == s[2 * n - 2 - j].half
        &&& s[j].half == (j != n - 1)
        &&& s[j].segment == segment
        &&& s[j].order == base + j
    } by {
        let m = 2 * n - 2 - j;
        if j < n - 1 {
            assert(s[j].term == j);
            assert(s[m].term == n - 2 - (m - n));
        } else if j > n - 1 {
            assert(s[m].term == m);
        }
    }
}

/// In the first-order schedule the order index of each application is its
/// position.
pub proof fn law_first_order_positions(n: nat, k: nat)
    requires
        k * n <= usize::MAX,
    ensures
        first_order_schedule(n, k).len() == k * n,
        forall|j: int| 0 <= j < k * n ==> #[trigger] first_order_schedule(n, k)[j].order == j,
    decreases k,
{
    if k > 0 {
        let k1 = (k - 1) as nat;
        assert(k1 * n + n == k * n) by (nonlinear_arith)
            requires
                k1 + 1 == k,
        ;
        law_first_order_positions(n, k1);
        let f = first_order_schedule(n, k);
        let prev = first_order_schedule(n, k1);
        let b = first_order_block(k1, n);
        assert(f == prev + b);
        assert(f.len() == k * n);
        assert forall|j: int| 0 <= j < k * n implies #[trigger] f[j].order == j by {
            if j < k1 * n {
                assert(f[j] == prev[j]);
                assert(prev[j].order == j);
            } else {
                assert(f[j] == b[j - k1 * n]);
            }
        }
    } else {
        assert(k * n == 0) by (nonlinear_arith)
            requires
                k == 0,
        ;
    }
}

/// In the second-order schedule the order index of each application is its
/// position.
pub proof fn law_second_order_positions(n: nat, k: nat)
    requires
        n >= 1,
        k * (2 * n - 1) <= usize::MAX,
    ensures
        second_order_schedule(n, k).len() == k * (2 * n - 1),
        forall|j: int| 0 <= j < k * (2 * n - 1) ==> #[trigger] second_order_schedule(n, k)[j].order == j,
    decreases k,
{
    if k > 0 {
        let k1 = (k - 1) as nat;
        let w = (2 * n - 1) as nat;
        assert(k1 * w + w == k * w) by (nonlinear_arith)
            requires
                k1 + 1 == k,
        ;
        law_second_order_positions(n, k1);
        let base = (k1 * w) as nat;
        law_strang_segment_symmetric(base, n, TrotterSegment::Whole);
        let f = second_order_schedule(n, k);
        let prev = second_order_schedule(n, k1);
        let b = strang_segment(base, n, TrotterSegment::Whole);
        assert(f == prev + b);
        assert forall|j: int| 0 <= j < k * w implies #[trigger] f[j].order == j by {
            if j < base {
                assert(f[j] == prev[j]);
                assert(prev[j].order == j);
            } else {
                assert(f[j] == b[j - base]);
            }
        }
    } else {
        assert(k * (2 * n - 1) == 0) by (nonlinear_arith)
            requires
                k == 0,
        ;
    }
}

} // verus!
