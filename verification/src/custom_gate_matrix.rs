//! Which gates have a matrix, and the angles their matrices are built
//! from: their parameters evaluated against a table of symbol values.
//! Angles are binary64 encodings.

use vstd::prelude::*;
use vstd::string::StringExecFns;
use crate::error::{MyQuatError, Result};
use crate::gates::{gate_debug_spec, Parameter, StandardGate};
use crate::text::concat;

verus! {

/// Number of angles a gate's matrix is built from; none for a gate without
/// a matrix.
pub open spec fn angle_count(g: StandardGate) -> Option<nat> {
    match g {
        StandardGate::Rx | StandardGate::Ry | StandardGate::Rz | StandardGate::P | StandardGate::U1
        | StandardGate::CRx | StandardGate::CRy | StandardGate::CRz | StandardGate::CP => Some(1),
        StandardGate::U2 => Some(2),
        StandardGate::U3 | StandardGate::U => Some(3),
        StandardGate::Measure => None,
        _ => Some(0),
    }
}

/// Value of the first entry for `name` in a symbol table.
pub open spec fn symbol_value(symbols: Seq<(String, u64)>, name: Seq<char>) -> Option<u64>
    decreases symbols.len(),
{
    if symbols.len() == 0 {
        None
    } else if symbols[0].0@ == name {
        Some(symbols[0].1)
    } else {
        symbol_value(symbols.drop_first(), name)
    }
}

/// Value of a parameter: a number is itself, a symbol is looked up, an
/// expression has none.
pub open spec fn param_value(p: Parameter, symbols: Seq<(String, u64)>) -> Option<u64> {
    match p {
        Parameter::Float(b) => Some(b),
        Parameter::Symbol(name) => symbol_value(symbols, name@),
        Parameter::Expression(_) => None,
    }
}

/// `e` is the error for a parameter that has no value.
pub open spec fn param_error(p: Parameter, e: MyQuatError) -> bool {
    match p {
        Parameter::Symbol(name) => e matches MyQuatError::InvalidParameter { message } && message@ == "Symbol '"@
            + name@ + "' not found in symbol table"@,
        _ => e matches MyQuatError::CircuitError { message } && message@
            == "Expression evaluation not yet implemented"@,
    }
}

/// Look up a symbol in the table
fn lookup(symbols: &Vec<(String, u64)>, name: &String) -> (r: Option<u64>)
    ensures
        r == symbol_value(symbols@, name@),
{
    let mut i: usize = 0;
    assert(symbols@.skip(0) =~= symbols@);
    while i < symbols.len()
        invariant
            i <= symbols@.len(),
            symbol_value(symbols@, name@) == symbol_value(symbols@.skip(i as int), name@),
        decreases symbols.len() - i,
    {
        assert(symbols@.skip(i as int).drop_first() =~= symbols@.skip(i + 1));
        assert(symbols@.skip(i as int)[0] == symbols@[i as int]);
        if symbols[i].0 == *name {
            return Some(symbols[i].1);
        }
        i = i + 1;
    }
    None
}

/// Evaluate a parameter to a concrete value: a number, or a symbol's value
/// from the table; fails for an unknown symbol or an expression
pub fn eval_param(param: &Parameter, symbols: &Vec<(String, u64)>) -> (r: Result<u64>)
    ensures
        match r {
            Ok(v) => param_value(*param, symbols@) == Some(v),
            Err(e) => param_value(*param, symbols@) is None && param_error(*param, e),
        },
{
    match param {
        Parameter::Float(v) => Ok(*v),
        Parameter::Symbol(name) => match lookup(symbols, name) {
            Some(v) => Ok(v),
            None => {
                let head = concat("Symbol '", name.as_str());
                let message = concat(head.as_str(), "' not found in symbol table");
                Err(MyQuatError::invalid_parameter(message.as_str()))
            },
        },
        Parameter::Expression(_) => Err(MyQuatError::circuit_error("Expression evaluation not yet implemented")),
    }
}

/// The angles of a gate's matrix: its first parameters evaluated in order;
/// fails for a gate without a matrix, or with the error of the first
/// parameter that has no value
pub fn gate_angles(gate: StandardGate, params: &Vec<Parameter>, symbols: &Vec<(String, u64)>) -> (r: Result<
    Vec<u64>,
>)
    requires
        angle_count(gate) matches Some(n) ==> params@.len() >= n,
    ensures
        match angle_count(gate) {
            None => r matches Err(MyQuatError::CircuitError { message }) && message@
                == "Matrix computation not implemented for gate: "@ + gate_debug_spec(gate),
            Some(n) => match r {
                Ok(v) => v@.len() == n && forall|k: int| 0 <= k < n ==> param_value(params@[k], symbols@) == Some(
                    #[trigger] v@[k],
                ),
                Err(e) => exists|k: int|
                    0 <= k < n && param_value(#[trigger] params@[k], symbols@) is None && param_error(params@[k], e)
                        && forall|j: int| 0 <= j < k ==> param_value(#[trigger] params@[j], symbols@) is Some,
            },
        },
{
    let n: usize = match gate {
        StandardGate::Rx | StandardGate::Ry | StandardGate::Rz | StandardGate::P | StandardGate::U1
        | StandardGate::CRx | StandardGate::CRy | StandardGate::CRz | StandardGate::CP => 1,
        StandardGate::U2 => 2,
        StandardGate::U3 | StandardGate::U => 3,
        StandardGate::Measure => {
            let message = concat("Matrix computation not implemented for gate: ", gate.debug_name());
            return Err(MyQuatError::circuit_error(message.as_str()));
        },
        _ => 0,
    };
    assert(angle_count(gate) == Some(n as nat));
    let mut v: Vec<u64> = Vec::new();
    let mut k: usize = 0;
    while k < n
        invariant
            k <= n,
            n <= params@.len(),
            angle_count(gate) == Some(n as nat),
            v@.len() == k,
            forall|j: int| 0 <= j < k ==> param_value(params@[j], symbols@) == Some(#[trigger] v@[j]),
        decreases n - k,
    {
        match eval_param(&params[k], symbols) {
            Ok(x) => v.push(x),
            Err(e) => {
                assert forall|j: int| 0 <= j < k implies param_value(#[trigger] params@[j], symbols@) is Some by {
                    assert(param_value(params@[j], symbols@) == Some(v@[j]));
                }
                assert(param_value(params@[k as int], symbols@) is None && param_error(params@[k as int], e));
                return Err(e);
            },
        }
        k = k + 1;
    }
    Ok(v)
}

} // verus!
