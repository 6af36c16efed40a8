//! Building messages from text pieces and decimal numbers.

use vstd::prelude::*;
use vstd::string::StringExecFns;
use vstd::string::StrSliceExecFns;

verus! {

/// The character of a decimal digit.
pub open spec fn digit_char(d: nat) -> char {
    if d == 0 { '0' } else if d == 1 { '1' } else if d == 2 { '2' } else if d == 3 { '3' }
    else if d == 4 { '4' } else if d == 5 { '5' } else if d == 6 { '6' } else if d == 7 { '7' }
    else if d == 8 { '8' } else { '9' }
}

/// Decimal notation of `n`, without leading zeros.
pub open spec fn decimal_spec(n: nat) -> Seq<char>
    decreases n,
{
    if n < 10 {
        seq![digit_char(n)]
    } else {
        decimal_spec(n / 10) + seq![digit_char(n % 10)]
    }
}

fn digit_str(d: usize) -> (r: &'static str)
    requires
        d < 10,
    ensures
        r@ == seq![digit_char(d as nat)],
{
    proof {
        reveal_strlit("0");
        reveal_strlit("1");
        reveal_strlit("2");
        reveal_strlit("3");
        reveal_strlit("4");
        reveal_strlit("5");
        reveal_strlit("6");
        reveal_strlit("7");
        reveal_strlit("8");
        reveal_strlit("9");
    }
    if d == 0 { "0" } else if d == 1 { "1" } else if d == 2 { "2" } else if d == 3 { "3" }
    else if d == 4 { "4" } else if d == 5 { "5" } else if d == 6 { "6" } else if d == 7 { "7" }
    else if d == 8 { "8" } else { "9" }
}

/// Decimal notation of `n`.
pub fn decimal(n: usize) -> (r: String)
    ensures
        r@ == decimal_spec(n as nat),
    decreases n,
{
    if n < 10 {
        String::from_str(digit_str(n))
    } else {
        let mut s = decimal(n / 10);
        s.append(digit_str(n % 10));
        s
    }
}

/// Decimal notation of a 64-bit `n`.
pub fn decimal_u64(n: u64) -> (r: String)
    ensures
        r@ == decimal_spec(n as nat),
    decreases n,
{
    if n < 10 {
        String::from_str(digit_str(n as usize))
    } else {
        let mut s = decimal_u64(n / 10);
        s.append(digit_str((n % 10) as usize));
        s
    }
}

/// Concatenation of two pieces of text.
pub fn concat(a: &str, b: &str) -> (r: String)
    ensures
        r@ == a@ + b@,
{
    let mut s = String::from_str(a);
    s.append(b);
    s
}

/// `i` is the first position at which `names` holds `k`.
pub open spec fn is_first(names: Seq<Seq<char>>, k: Seq<char>, i: int) -> bool {
    0 <= i < names.len() && names[i] == k && forall|j: int| 0 <= j < i ==> names[j] != k
}

/// The first position at which `names` holds `k`.
pub open spec fn first_position(names: Seq<Seq<char>>, k: Seq<char>) -> int {
    choose|i: int| is_first(names, k, i)
}

/// A first position is the first position.
pub proof fn lemma_first_position(names: Seq<Seq<char>>, k: Seq<char>, i: int)
    requires
        is_first(names, k, i),
    ensures
        first_position(names, k) == i,
{
    let j = first_position(names, k);
    assert(is_first(names, k, j));
    if j < i {
        assert(names[j] != k);
    } else if i < j {
        assert(names[i] != k);
    }
}

/// A name that occurs has a first position.
pub proof fn lemma_first_exists(names: Seq<Seq<char>>, k: Seq<char>, i: int)
    requires
        0 <= i < names.len(),
        names[i] == k,
    ensures
        exists|j: int| is_first(names, k, j),
    decreases i,
{
    if exists|j: int| 0 <= j < i && names[j] == k {
        let j = choose|j: int| 0 <= j < i && names[j] == k;
        lemma_first_exists(names, k, j);
    } else {
        assert(is_first(names, k, i));
    }
}


/// `t` occurs in `s` starting at position `i`.
pub open spec fn occurs_at(s: Seq<char>, t: Seq<char>, i: int) -> bool {
    0 <= i && i + t.len() <= s.len() && s.subrange(i, i + t.len()) == t
}

/// `t` occurs somewhere in `s`.
pub open spec fn has_infix(s: Seq<char>, t: Seq<char>) -> bool {
    exists|i: int| occurs_at(s, t, i)
}

/// Whether `t` occurs in `s`
pub fn contains_text(s: &str, t: &str) -> (r: bool)
    ensures
        r == has_infix(s@, t@),
{
    let n = s.unicode_len();
    let m = t.unicode_len();
    if m > n {
        return false;
    }
    let mut i: usize = 0;
    while i <= n - m
        invariant
            n == s@.len(),
            m == t@.len(),
            m <= n,
            i <= n - m + 1,
            forall|j: int| 0 <= j < i ==> !occurs_at(s@, t@, j),
        decreases n - m + 1 - i,
    {
        let mut k: usize = 0;
        let mut same = true;
        while k < m
            invariant
                n == s@.len(),
                m == t@.len(),
                i + m <= n,
                k <= m,
                same <==> forall|x: int| 0 <= x < k ==> s@[i + x] == t@[x],
            decreases m - k,
        {
            if s.get_char(i + k) != t.get_char(k) {
                same = false;
            }
            k = k + 1;
        }
        if same {
            assert(s@.subrange(i as int, i + m) =~= t@);
            assert(occurs_at(s@, t@, i as int));
            return true;
        }
        proof {
            if occurs_at(s@, t@, i as int) {
                assert forall|x: int| 0 <= x < m implies s@[i + x] == t@[x] by {
                    assert(s@.subrange(i as int, i + m)[x] == s@[i + x]);
                }
            }
        }
        i = i + 1;
    }
    false
}

} // verus!
