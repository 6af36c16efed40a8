//! Inverse gates: which gates are their own inverse, the inverse of a gate,
//! and whether two gates are inverses of each other.
//!
//! Numbers are held as binary64 encodings; whether two of them are close
//! enough to count as equal is judged by a comparison that the caller hands
//! in, since it is floating-point arithmetic.

use vstd::prelude::*;
use crate::error::{is_circuit_error, MyQuatError, Result};
use crate::gates::{gate_debug_spec, Gate, GateView, Parameter, StandardGate, PI_BITS, SIGN_BIT};
use crate::basis_action::{basis_action, lemma_sequence_cons, one_qubit_action, sequence_action};
use crate::circuit::{op2, InstrView};
use crate::custom_gate_matrix::angle_count;
use crate::text::concat;

verus! {

/// Gate kinds that are their own inverse.
pub open spec fn self_inverse_kind(g: StandardGate) -> bool {
    match g {
        StandardGate::H | StandardGate::X | StandardGate::Y | StandardGate::Z | StandardGate::CX
        | StandardGate::CY | StandardGate::CZ | StandardGate::Swap => true,
        _ => false,
    }
}

/// Kind of the inverse of a gate of kind `g`, where one is defined.
pub open spec fn inverse_kind(g: StandardGate) -> Option<StandardGate> {
    match g {
        StandardGate::H | StandardGate::X | StandardGate::Y | StandardGate::Z | StandardGate::CX
        | StandardGate::CY | StandardGate::CZ | StandardGate::Swap => Some(g),
        StandardGate::S => Some(StandardGate::Sdg),
        StandardGate::Sdg => Some(StandardGate::S),
        StandardGate::T => Some(StandardGate::Tdg),
        StandardGate::Tdg => Some(StandardGate::T),
        StandardGate::Rx | StandardGate::Ry | StandardGate::Rz | StandardGate::P | StandardGate::U1
        | StandardGate::U2 | StandardGate::U3 | StandardGate::CRx | StandardGate::CRy
        | StandardGate::CRz | StandardGate::CP => Some(g),
        _ => None,
    }
}

/// `q` is the negation of `p`: a number with its sign flipped, or a symbol
/// with a leading minus sign. Expressions have no negation.
pub open spec fn negation_of(p: Parameter, q: Parameter) -> bool {
    match p {
        Parameter::Float(b) => q == Parameter::Float(b ^ SIGN_BIT),
        Parameter::Symbol(s) => q matches Parameter::Symbol(t) && t@ == seq!['-'] + s@,
        Parameter::Expression(_) => false,
    }
}

/// `q` is pi minus `p`: for a number, what `difference` answers for pi and
/// it; for a symbol, the symbol with `pi-` in front. Expressions have none.
pub open spec fn reflection_of<F: Fn(u64, u64) -> u64>(p: Parameter, q: Parameter, difference: F) -> bool {
    match p {
        Parameter::Float(b) => q matches Parameter::Float(c) && difference.ensures((PI_BITS, b), c),
        Parameter::Symbol(s) => q matches Parameter::Symbol(t) && t@ == "pi-"@ + s@,
        Parameter::Expression(_) => false,
    }
}

/// `h` is the inverse (adjoint) of `g`, numbers being subtracted by
/// `difference`. U3(theta, phi, lambda) has the inverse
/// U3(-theta, -lambda, -phi); U2(phi, lambda) has the inverse
/// U2(pi - lambda, pi - phi), equal to U3(-pi/2, -lambda, -phi) up to a global
/// phase. Every other gate keeps its parameters in place, each negated,
/// under the inverse kind.
pub open spec fn is_inverse_of<F: Fn(u64, u64) -> u64>(g: GateView, h: GateView, difference: F) -> bool {
    &&& h.label == g.label
    &&& if is_full_u3(g) {
        h.gate_type == StandardGate::U3 && h.parameters.len() == 3
            && negation_of(g.parameters[0], h.parameters[0])
            && negation_of(g.parameters[2], h.parameters[1])
            && negation_of(g.parameters[1], h.parameters[2])
    } else if is_full_u2(g) {
        h.gate_type == StandardGate::U2 && h.parameters.len() == 2
            && reflection_of(g.parameters[1], h.parameters[0], difference)
            && reflection_of(g.parameters[0], h.parameters[1], difference)
    } else {
        inverse_kind(g.gate_type) == Some(h.gate_type)
            && h.parameters.len() == g.parameters.len()
            && forall|i: int| 0 <= i < g.parameters.len() ==> negation_of(g.parameters[i], #[trigger] h.parameters[i])
    }
}

/// A U3 gate with its three angles.
pub open spec fn is_full_u3(g: GateView) -> bool {
    g.gate_type == StandardGate::U3 && g.parameters.len() == 3
}

/// A U2 gate with its two angles.
pub open spec fn is_full_u2(g: GateView) -> bool {
    g.gate_type == StandardGate::U2 && g.parameters.len() == 2
}

/// Some parameter of the list is an expression.
pub open spec fn has_expression(ps: Seq<Parameter>) -> bool {
    exists|i: int| 0 <= i < ps.len() && ps[i] is Expression
}

/// `close` answered `verdict` for two parameters: numbers are judged by
/// `close`, symbols match by name, anything else does not match.
pub open spec fn params_judged<F: Fn(u64, u64) -> bool>(a: Parameter, b: Parameter, close: F, verdict: bool) -> bool {
    match (a, b) {
        (Parameter::Float(x), Parameter::Float(y)) => close.ensures((x, y), verdict),
        (Parameter::Symbol(s), Parameter::Symbol(t)) => (s@ == t@) == verdict,
        _ => !verdict,
    }
}

/// Two gates agree: same kind, same number of parameters, and every pair of
/// parameters judged to match.
pub open spec fn gates_agree<F: Fn(u64, u64) -> bool>(a: GateView, b: GateView, close: F) -> bool {
    &&& a.gate_type == b.gate_type
    &&& a.parameters.len() == b.parameters.len()
    &&& forall|i: int| 0 <= i < a.parameters.len() ==> params_judged(a.parameters[i], #[trigger] b.parameters[i], close, true)
}

/// Two gates differ: another kind, another number of parameters, or some
/// pair of parameters judged not to match.
pub open spec fn gates_differ<F: Fn(u64, u64) -> bool>(a: GateView, b: GateView, close: F) -> bool {
    ||| a.gate_type != b.gate_type
    ||| a.parameters.len() != b.parameters.len()
    ||| exists|i: int| 0 <= i < a.parameters.len() && params_judged(a.parameters[i], #[trigger] b.parameters[i], close, false)
}

/// Message of the error for a gate kind without inverse.
pub open spec fn no_inverse_message(g: StandardGate) -> Seq<char> {
    "Inverse not defined for gate: "@ + gate_debug_spec(g)
}

/// Message of the error for a parameter that cannot be negated.
pub open spec fn expression_message() -> Seq<char> {
    "Cannot negate complex parameter expressions"@
}

/// What `inverse` returns for `g`.
pub open spec fn inverse_result<F: Fn(u64, u64) -> u64>(g: GateView, r: Result<Gate>, difference: F) -> bool {
    match r {
        Ok(h) => inverse_kind(g.gate_type) is Some && !has_expression(g.parameters) && is_inverse_of(g, h@, difference),
        Err(e) => if inverse_kind(g.gate_type) is None {
            is_circuit_error(e, no_inverse_message(g.gate_type))
        } else {
            has_expression(g.parameters) && is_circuit_error(e, expression_message())
        },
    }
}

/// Gate inverse analyzer
pub struct GateInverse;

impl GateInverse {
    /// Check if a gate is self-inverse (Hermitian)
    pub fn is_self_inverse(gate: &Gate) -> (r: bool)
        ensures
            r == self_inverse_kind(gate.gate_type),
    {
        Self::is_standard_gate_self_inverse(&gate.gate_type)
    }

    /// Check if a standard gate kind is self-inverse
    fn is_standard_gate_self_inverse(gate: &StandardGate) -> (r: bool)
        ensures
            r == self_inverse_kind(*gate),
    {
        match gate {
            StandardGate::H | StandardGate::X | StandardGate::Y | StandardGate::Z | StandardGate::CX
            | StandardGate::CY | StandardGate::CZ | StandardGate::Swap => true,
            _ => false,
        }
    }

    /// Compute the inverse of a gate: the inverse kind with the parameters
    /// negated; for U3 the two phase angles are swapped as well, and for U2
    /// they are swapped and each taken from pi. `difference` is handed two
    /// binary64 encodings and answers the encoding of their difference.
    pub fn inverse<F: Fn(u64, u64) -> u64>(gate: &Gate, difference: F) -> (r: Result<Gate>)
        requires
            forall|x: u64, y: u64| difference.requires((x, y)),
        ensures
            inverse_result(gate@, r, difference),
    {
        let inverse_gate_type = Self::inverse_standard_gate(&gate.gate_type)?;
        let mut params: Vec<Parameter> = Vec::new();
        let mut i: usize = 0;
        while i < gate.parameters.len()
            invariant
                i <= gate.parameters.len(),
                inverse_kind(gate.gate_type) == Some(inverse_gate_type),
                params@.len() == i,
                forall|j: int| 0 <= j < i ==> negation_of(gate.parameters@[j], #[trigger] params@[j]),
                forall|j: int| 0 <= j < i ==> !(gate.parameters@[j] is Expression),
            decreases gate.parameters.len() - i,
        {
            match Self::negate_parameter(&gate.parameters[i]) {
                Ok(p) => params.push(p),
                Err(e) => {
                    assert(gate@.parameters[i as int] is Expression);
                    assert(has_expression(gate@.parameters));
                    return Err(e);
                },
            }
            i = i + 1;
        }
        let label = match &gate.label {
            Some(s) => Some(s.clone()),
            None => None,
        };
        let n = gate.parameters.len();
        let h = if gate.gate_type == StandardGate::U3 && n == 3 {
            let swapped = vec![params[0].duplicate(), params[2].duplicate(), params[1].duplicate()];
            Gate { gate_type: StandardGate::U3, parameters: swapped, label }
        } else if gate.gate_type == StandardGate::U2 && n == 2 {
            assert(!(gate.parameters@[0] is Expression) && !(gate.parameters@[1] is Expression));
            let first = Self::reflect_parameter(&gate.parameters[1], &difference);
            let second = Self::reflect_parameter(&gate.parameters[0], &difference);
            Gate { gate_type: StandardGate::U2, parameters: vec![first, second], label }
        } else {
            Gate { gate_type: inverse_gate_type, parameters: params, label }
        };
        assert(!has_expression(gate@.parameters));
        Ok(h)
    }

    /// Compute the inverse kind of a standard gate kind
    fn inverse_standard_gate(gate: &StandardGate) -> (r: Result<StandardGate>)
        ensures
            match inverse_kind(*gate) {
                Some(k) => r == Ok::<StandardGate, MyQuatError>(k),
                None => r matches Err(e) && is_circuit_error(e, no_inverse_message(*gate)),
            },
    {
        match gate {
            StandardGate::H | StandardGate::X | StandardGate::Y | StandardGate::Z | StandardGate::CX
            | StandardGate::CY | StandardGate::CZ | StandardGate::Swap => Ok(*gate),
            StandardGate::S => Ok(StandardGate::Sdg),
            StandardGate::Sdg => Ok(StandardGate::S),
            StandardGate::T => Ok(StandardGate::Tdg),
            StandardGate::Tdg => Ok(StandardGate::T),
            StandardGate::Rx | StandardGate::Ry | StandardGate::Rz | StandardGate::P | StandardGate::U1
            | StandardGate::U2 | StandardGate::U3 | StandardGate::CRx | StandardGate::CRy
            | StandardGate::CRz | StandardGate::CP => Ok(*gate),
            _ => Err(MyQuatError::CircuitError {
                message: concat("Inverse not defined for gate: ", gate.debug_name()),
            }),
        }
    }

    /// Pi minus a parameter that is not an expression
    fn reflect_parameter<F: Fn(u64, u64) -> u64>(param: &Parameter, difference: &F) -> (r: Parameter)
        requires
            !(param is Expression),
            forall|x: u64, y: u64| difference.requires((x, y)),
        ensures
            reflection_of(*param, r, *difference),
    {
        match param {
            Parameter::Float(value) => Parameter::Float(difference(PI_BITS, *value)),
            Parameter::Symbol(name) => Parameter::Symbol(concat("pi-", name.as_str())),
            Parameter::Expression(_) => unreached(),
        }
    }

    /// Negate a parameter
    fn negate_parameter(param: &Parameter) -> (r: Result<Parameter>)
        ensures
            match r {
                Ok(q) => negation_of(*param, q),
                Err(e) => param is Expression && is_circuit_error(e, expression_message()),
            },
    {
        match param {
            Parameter::Float(value) => {
                let v: u64 = *value;
                let n: u64 = v ^ SIGN_BIT;
                assert(n == v ^ SIGN_BIT);
                Ok(Parameter::Float(n))
            },
            Parameter::Symbol(name) => {
                let negated = concat("-", name.as_str());
                proof {
                    reveal_strlit("-");
                    assert("-"@ =~= seq!['-']);
                }
                Ok(Parameter::Symbol(negated))
            },
            Parameter::Expression(_) => Err(MyQuatError::circuit_error("Cannot negate complex parameter expressions")),
        }
    }

    /// Check if two gates are inverses of each other: the inverse of the
    /// first, numbers being subtracted by `difference`, agrees with the
    /// second, numbers being judged by `close` (which is handed the two
    /// encodings and answers whether they are within the tolerance)
    pub fn are_inverses<F: Fn(u64, u64) -> bool, D: Fn(u64, u64) -> u64>(
        gate1: &Gate,
        gate2: &Gate,
        close: F,
        difference: D,
    ) -> (r: Result<bool>)
        requires
            forall|x: u64, y: u64| close.requires((x, y)),
            forall|x: u64, y: u64| difference.requires((x, y)),
        ensures
            match r {
                Ok(b) => inverse_kind(gate1.gate_type) is Some && !has_expression(gate1.parameters@)
                    && (exists|h: Gate| #[trigger] is_inverse_of(gate1@, h@, difference)
                        && (b ==> gates_agree(h@, gate2@, close)) && (!b ==> gates_differ(h@, gate2@, close))),
                Err(e) => inverse_result(gate1@, Err(e), difference),
            },
    {
        let inv1 = Self::inverse(gate1, difference)?;
        let b = Self::gates_equal(&inv1, gate2, &close);
        assert(is_inverse_of(gate1@, inv1@, difference));
        Ok(b)
    }

    /// Check if two gates agree, numbers being judged by `close`
    fn gates_equal<F: Fn(u64, u64) -> bool>(gate1: &Gate, gate2: &Gate, close: &F) -> (r: bool)
        requires
            forall|x: u64, y: u64| close.requires((x, y)),
        ensures
            r ==> gates_agree(gate1@, gate2@, *close),
            !r ==> gates_differ(gate1@, gate2@, *close),
    {
        if gate1.gate_type != gate2.gate_type {
            return false;
        }
        if gate1.parameters.len() != gate2.parameters.len() {
            return false;
        }
        let mut i: usize = 0;
        while i < gate1.parameters.len()
            invariant
                i <= gate1.parameters.len(),
                gate1.parameters.len() == gate2.parameters.len(),
                gate1.gate_type == gate2.gate_type,
                forall|x: u64, y: u64| close.requires((x, y)),
                forall|j: int| 0 <= j < i ==> params_judged(gate1.parameters@[j], #[trigger] gate2.parameters@[j], *close, true),
            decreases gate1.parameters.len() - i,
        {
            if !Self::params_equal(&gate1.parameters[i], &gate2.parameters[i], close) {
                assert(params_judged(gate1@.parameters[i as int], gate2@.parameters[i as int], *close, false));
                return false;
            }
            i = i + 1;
        }
        true
    }

    /// Check if two parameters agree, numbers being judged by `close`
    fn params_equal<F: Fn(u64, u64) -> bool>(p1: &Parameter, p2: &Parameter, close: &F) -> (r: bool)
        requires
            forall|x: u64, y: u64| close.requires((x, y)),
        ensures
            params_judged(*p1, *p2, *close, r),
    {
        match (p1, p2) {
            (Parameter::Float(v1), Parameter::Float(v2)) => close(*v1, *v2),
            (Parameter::Symbol(s1), Parameter::Symbol(s2)) => *s1 == *s2,
            _ => false,
        }
    }
}

/// Inverting twice gives back what was inverted: for every gate whose
/// parameters are all numbers, other than a U2 (whose inverse takes each
/// angle from pi, which rounds), the inverse of its inverse has the same kind, the same parameter
/// encodings and the same label.
pub proof fn law_inverse_involution<F: Fn(u64, u64) -> u64>(g: GateView, h: GateView, k: GateView, difference: F)
    requires
        is_inverse_of(g, h, difference),
        is_inverse_of(h, k, difference),
        !is_full_u2(g),
        forall|i: int| 0 <= i < g.parameters.len() ==> (#[trigger] g.parameters[i]) is Float,
    ensures
        k == g,
{
    if is_full_u3(g) {
        let a = g.parameters[0]->Float_0;
        let b = g.parameters[1]->Float_0;
        let c = g.parameters[2]->Float_0;
        assert(g.parameters[0] is Float && g.parameters[1] is Float && g.parameters[2] is Float);
        assert(a ^ SIGN_BIT ^ SIGN_BIT == a) by (bit_vector);
        assert(b ^ SIGN_BIT ^ SIGN_BIT == b) by (bit_vector);
        assert(c ^ SIGN_BIT ^ SIGN_BIT == c) by (bit_vector);
        assert(k.parameters =~= g.parameters);
    } else {
        assert(!is_full_u3(h));
        assert forall|i: int| 0 <= i < g.parameters.len() implies #[trigger] k.parameters[i] == g.parameters[i] by {
            assert(negation_of(g.parameters[i], h.parameters[i]));
            assert(negation_of(h.parameters[i], k.parameters[i]));
            let b = g.parameters[i]->Float_0;
            assert(b ^ SIGN_BIT ^ SIGN_BIT == b) by (bit_vector);
        }
        assert(k.parameters =~= g.parameters);
    }
}

/// A gate and its inverse are recognised as inverses: whenever the
/// comparison of numbers finds every number close to itself, the inverse
/// agrees with itself, so `are_inverses(g, inverse(g, difference), close, difference)` answers
/// `true`.
pub proof fn law_inverse_recognised<F: Fn(u64, u64) -> bool, D: Fn(u64, u64) -> u64>(
    g: GateView,
    h: GateView,
    close: F,
    difference: D,
)
    requires
        is_inverse_of(g, h, difference),
        forall|x: u64| #[trigger] close.ensures((x, x), true),
    ensures
        gates_agree(h, h, close),
{
    assert forall|i: int| 0 <= i < h.parameters.len() implies params_judged(h.parameters[i], #[trigger] h.parameters[i], close, true) by {
        if let Parameter::Float(x) = h.parameters[i] {
            assert(close.ensures((x, x), true));
        }
    }
}

/// A self-inverse kind is its own inverse kind, and taking the inverse kind
/// twice gives back the kind.
pub proof fn law_self_inverse_kinds(k: StandardGate)
    ensures
        self_inverse_kind(k) ==> inverse_kind(k) == Some(k),
        inverse_kind(k) matches Some(j) ==> inverse_kind(j) == Some(k),
{
}

/// Every gate kind whose matrix is built from angles, other than the general
/// U, has an inverse of its own kind: inverting such a gate whose parameters
/// are numbers or symbols succeeds, and keeps its kind and its number of
/// parameters.
pub proof fn law_angle_gates_invertible<F: Fn(u64, u64) -> u64>(g: GateView, r: Result<Gate>, difference: F)
    requires
        angle_count(g.gate_type) matches Some(n) && n > 0,
        g.gate_type != StandardGate::U,
        !has_expression(g.parameters),
        inverse_result(g, r, difference),
    ensures
        inverse_kind(g.gate_type) == Some(g.gate_type),
        r matches Ok(h) && h@.gate_type == g.gate_type && h@.parameters.len() == g.parameters.len(),
{
}

/// The inverse kind undoes a one-qubit kind other than the identity that
/// sends basis states to basis states: on every basis state, acting with
/// the kind and then with the inverse kind gives the state back, with a
/// whole number of turns as phase.
pub proof fn law_inverse_kind_undoes(g: StandardGate, q: int, s: Seq<bool>)
    requires
        one_qubit_action(g, q, s) is Some,
        g != StandardGate::I,
        0 <= q < s.len(),
    ensures
        inverse_kind(g) matches Some(k) && one_qubit_action(k, q, one_qubit_action(g, q, s)->Some_0.0) matches Some(y)
            && y.0 == s && (one_qubit_action(g, q, s)->Some_0.1 + y.1) % 8 == 0,
{
    if g == StandardGate::X || g == StandardGate::Y {
        let t = s.update(q, !s[q]);
        assert(t.update(q, !t[q]) =~= s);
    }
}

/// Inverting a gate of one angle negates the angle: for Rx, Ry, Rz, P, U1
/// and their controlled forms with a numeric angle, the inverse has the same
/// kind and the angle with its sign bit flipped.
pub proof fn law_inverse_negates_single_angles<F: Fn(u64, u64) -> u64>(g: GateView, h: GateView, difference: F)
    requires
        is_inverse_of(g, h, difference),
        angle_count(g.gate_type) == Some(1nat),
        g.parameters.len() == 1,
        g.parameters[0] is Float,
    ensures
        h.gate_type == g.gate_type,
        h.parameters == seq![Parameter::Float(g.parameters[0]->Float_0 ^ SIGN_BIT)],
{
    assert(negation_of(g.parameters[0], h.parameters[0]));
    assert(h.parameters =~= seq![Parameter::Float(g.parameters[0]->Float_0 ^ SIGN_BIT)]);
}

/// The inverse kind undoes CNOT, CY, CZ and SWAP: on every basis state, the
/// gate on two different qubits followed by its inverse kind on the same
/// qubits gives the state back, with a whole number of turns as phase.
pub proof fn law_inverse_kind_undoes_pairs(g: StandardGate, a: usize, b: usize, s: Seq<bool>)
    requires
        g == StandardGate::CX || g == StandardGate::CY || g == StandardGate::CZ || g == StandardGate::Swap,
        a != b,
        a < s.len(),
        b < s.len(),
    ensures
        inverse_kind(g) matches Some(k)
            && sequence_action(seq![op2(g, a, b), op2(k, a, b)], s) matches Some(x)
            && x.0 == s && x.1 % 8 == 0,
{
    let k = inverse_kind(g)->Some_0;
    let ops: Seq<InstrView> = seq![op2(g, a, b), op2(k, a, b)];
    lemma_sequence_cons(ops, s);
    let first = basis_action(ops[0], s)->Some_0;
    lemma_sequence_cons(ops.drop_first(), first.0);
    assert(ops.drop_first().drop_first() =~= Seq::<InstrView>::empty());
    let (p, q) = (a as int, b as int);
    if g == StandardGate::Swap {
        let t = s.update(p, s[q]).update(q, s[p]);
        assert(t.update(p, t[q]).update(q, t[p]) =~= s);
    } else if s[p] && g != StandardGate::CZ {
        let t = s.update(q, !s[q]);
        assert(t.update(q, !t[q]) =~= s);
    }
}

} // verus!
