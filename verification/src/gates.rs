//! Gate kinds, gate parameters and parameterised gates.
//!
//! A real-valued gate parameter is carried as the IEEE-754 binary64 encoding
//! of its value (`f64::to_bits`), so that every value a caller may pass is
//! represented exactly and negation is the exact sign flip of the encoding.

use vstd::prelude::*;

verus! {

/// Standard quantum gate kinds.
#[derive(Debug, Clone, Copy, PartialEq, Eq, Hash, Structural)]
pub enum StandardGate {
    I,
    X,
    Y,
    Z,
    H,
    S,
    Sdg,
    T,
    Tdg,
    Rx,
    Ry,
    Rz,
    P,
    U,
    U1,
    U2,
    U3,
    CX,
    CY,
    CZ,
    CH,
    CRx,
    CRy,
    CRz,
    CP,
    Swap,
    ISwap,
    CCX,
    CSwap,
    Measure,
}

/// Lower-case mnemonic of a gate kind.
pub open spec fn gate_name_spec(g: StandardGate) -> Seq<char> {
    match g {
        StandardGate::I => "id"@,
        StandardGate::X => "x"@,
        StandardGate::Y => "y"@,
        StandardGate::Z => "z"@,
        StandardGate::H => "h"@,
        StandardGate::S => "s"@,
        StandardGate::Sdg => "sdg"@,
        StandardGate::T => "t"@,
        StandardGate::Tdg => "tdg"@,
        StandardGate::Rx => "rx"@,
        StandardGate::Ry => "ry"@,
        StandardGate::Rz => "rz"@,
        StandardGate::P => "p"@,
        StandardGate::U => "u"@,
        StandardGate::U1 => "u1"@,
        StandardGate::U2 => "u2"@,
        StandardGate::U3 => "u3"@,
        StandardGate::CX => "cx"@,
        StandardGate::CY => "cy"@,
        StandardGate::CZ => "cz"@,
        StandardGate::CH => "ch"@,
        StandardGate::CRx => "crx"@,
        StandardGate::CRy => "cry"@,
        StandardGate::CRz => "crz"@,
        StandardGate::CP => "cp"@,
        StandardGate::Swap => "swap"@,
        StandardGate::ISwap => "iswap"@,
        StandardGate::CCX => "ccx"@,
        StandardGate::CSwap => "cswap"@,
        StandardGate::Measure => "measure"@,
    }
}

/// Variant name of a gate kind, as its `Debug` form prints it.
pub open spec fn gate_debug_spec(g: StandardGate) -> Seq<char> {
    match g {
        StandardGate::I => "I"@,
        StandardGate::X => "X"@,
        StandardGate::Y => "Y"@,
        StandardGate::Z => "Z"@,
        StandardGate::H => "H"@,
        StandardGate::S => "S"@,
        StandardGate::Sdg => "Sdg"@,
        StandardGate::T => "T"@,
        StandardGate::Tdg => "Tdg"@,
        StandardGate::Rx => "Rx"@,
        StandardGate::Ry => "Ry"@,
        StandardGate::Rz => "Rz"@,
        StandardGate::P => "P"@,
        StandardGate::U => "U"@,
        StandardGate::U1 => "U1"@,
        StandardGate::U2 => "U2"@,
        StandardGate::U3 => "U3"@,
        StandardGate::CX => "CX"@,
        StandardGate::CY => "CY"@,
        StandardGate::CZ => "CZ"@,
        StandardGate::CH => "CH"@,
        StandardGate::CRx => "CRx"@,
        StandardGate::CRy => "CRy"@,
        StandardGate::CRz => "CRz"@,
        StandardGate::CP => "CP"@,
        StandardGate::Swap => "Swap"@,
        StandardGate::ISwap => "ISwap"@,
        StandardGate::CCX => "CCX"@,
        StandardGate::CSwap => "CSwap"@,
        StandardGate::Measure => "Measure"@,
    }
}

/// Number of qubits a gate kind acts on.
pub open spec fn gate_arity(g: StandardGate) -> nat {
    match g {
        StandardGate::CX | StandardGate::CY | StandardGate::CZ | StandardGate::CH
        | StandardGate::CRx | StandardGate::CRy | StandardGate::CRz | StandardGate::CP
        | StandardGate::Swap | StandardGate::ISwap => 2,
        StandardGate::CCX | StandardGate::CSwap => 3,
        _ => 1,
    }
}

impl StandardGate {
    /// Mnemonic of this gate kind
    pub fn name(&self) -> (r: &'static str)
        ensures
            r@ == gate_name_spec(*self),
    {
        match self {
            StandardGate::I => "id",
            StandardGate::X => "x",
            StandardGate::Y => "y",
            StandardGate::Z => "z",
            StandardGate::H => "h",
            StandardGate::S => "s",
            StandardGate::Sdg => "sdg",
            StandardGate::T => "t",
            StandardGate::Tdg => "tdg",
            StandardGate::Rx => "rx",
            StandardGate::Ry => "ry",
            StandardGate::Rz => "rz",
            StandardGate::P => "p",
            StandardGate::U => "u",
            StandardGate::U1 => "u1",
            StandardGate::U2 => "u2",
            StandardGate::U3 => "u3",
            StandardGate::CX => "cx",
            StandardGate::CY => "cy",
            StandardGate::CZ => "cz",
            StandardGate::CH => "ch",
            StandardGate::CRx => "crx",
            StandardGate::CRy => "cry",
            StandardGate::CRz => "crz",
            StandardGate::CP => "cp",
            StandardGate::Swap => "swap",
            StandardGate::ISwap => "iswap",
            StandardGate::CCX => "ccx",
            StandardGate::CSwap => "cswap",
            StandardGate::Measure => "measure",
        }
    }

    /// Variant name of this gate kind
    pub fn debug_name(&self) -> (r: &'static str)
        ensures
            r@ == gate_debug_spec(*self),
    {
        match self {
            StandardGate::I => "I",
            StandardGate::X => "X",
            StandardGate::Y => "Y",
            StandardGate::Z => "Z",
            StandardGate::H => "H",
            StandardGate::S => "S",
            StandardGate::Sdg => "Sdg",
            StandardGate::T => "T",
            StandardGate::Tdg => "Tdg",
            StandardGate::Rx => "Rx",
            StandardGate::Ry => "Ry",
            StandardGate::Rz => "Rz",
            StandardGate::P => "P",
            StandardGate::U => "U",
            StandardGate::U1 => "U1",
            StandardGate::U2 => "U2",
            StandardGate::U3 => "U3",
            StandardGate::CX => "CX",
            StandardGate::CY => "CY",
            StandardGate::CZ => "CZ",
            StandardGate::CH => "CH",
            StandardGate::CRx => "CRx",
            StandardGate::CRy => "CRy",
            StandardGate::CRz => "CRz",
            StandardGate::CP => "CP",
            StandardGate::Swap => "Swap",
            StandardGate::ISwap => "ISwap",
            StandardGate::CCX => "CCX",
            StandardGate::CSwap => "CSwap",
            StandardGate::Measure => "Measure",
        }
    }

    /// Number of qubits this gate kind acts on
    pub fn num_qubits(&self) -> (r: usize)
        ensures
            r == gate_arity(*self),
    {
        match self {
            StandardGate::CX | StandardGate::CY | StandardGate::CZ | StandardGate::CH
            | StandardGate::CRx | StandardGate::CRy | StandardGate::CRz | StandardGate::CP
            | StandardGate::Swap | StandardGate::ISwap => 2,
            StandardGate::CCX | StandardGate::CSwap => 3,
            _ => 1,
        }
    }
}

/// Encoding of pi as an IEEE-754 binary64 value.
pub const PI_BITS: u64 = 0x400921fb54442d18u64;

/// Encoding of pi/2.
pub const HALF_PI_BITS: u64 = 0x3ff921fb54442d18u64;

/// Encoding of pi/4.
pub const QUARTER_PI_BITS: u64 = 0x3fe921fb54442d18u64;

/// Encoding of -pi/2.
pub const NEG_HALF_PI_BITS: u64 = 0xbff921fb54442d18u64;

/// Encoding of -pi/4.
pub const NEG_QUARTER_PI_BITS: u64 = 0xbfe921fb54442d18u64;

/// The sign bit of a binary64 encoding.
pub const SIGN_BIT: u64 = 0x8000000000000000u64;

/// Binary64 encoding of pi / 2^k: the exponent field of pi lowered by k,
/// which is exact while the quotient stays a normal number.
pub open spec fn pi_over_pow2_bits(k: nat) -> int {
    PI_BITS - k * 0x10000000000000
}

/// The encoded value is a NaN (exponent all ones, non-zero fraction).
pub open spec fn is_nan_bits(b: u64) -> bool {
    (b & 0x7ff0000000000000u64) == 0x7ff0000000000000u64 && (b & 0x000fffffffffffffu64) != 0
}

/// Gate parameter: a number, a named symbol, or an unevaluated expression.
#[derive(Debug, Clone)]
pub enum Parameter {
    /// A real value, as its binary64 encoding (`f64::to_bits`)
    Float(u64),
    /// A free symbol
    Symbol(String),
    /// A symbolic expression
    Expression(String),
}

impl Parameter {
    /// An exact copy of the parameter.
    pub fn duplicate(&self) -> (r: Self)
        ensures
            r == *self,
    {
        match self {
            Parameter::Float(b) => Parameter::Float(*b),
            Parameter::Symbol(s) => Parameter::Symbol(s.clone()),
            Parameter::Expression(s) => Parameter::Expression(s.clone()),
        }
    }
}

/// A gate kind together with its parameters and an optional label.
#[derive(Debug, Clone)]
pub struct Gate {
    pub gate_type: StandardGate,
    pub parameters: Vec<Parameter>,
    pub label: Option<String>,
}

/// Mathematical model of a gate.
pub struct GateView {
    pub gate_type: StandardGate,
    pub parameters: Seq<Parameter>,
    pub label: Option<String>,
}

impl View for Gate {
    type V = GateView;

    open spec fn view(&self) -> GateView {
        GateView { gate_type: self.gate_type, parameters: self.parameters@, label: self.label }
    }
}

/// Copy a list of parameters element by element.
pub fn duplicate_parameters(params: &Vec<Parameter>) -> (r: Vec<Parameter>)
    ensures
        r@ == params@,
{
    let mut r: Vec<Parameter> = Vec::new();
    let mut i: usize = 0;
    while i < params.len()
        invariant
            i <= params.len(),
            r@ == params@.take(i as int),
        decreases params.len() - i,
    {
        r.push(params[i].duplicate());
        i = i + 1;
        assert(r@ =~= params@.take(i as int));
    }
    assert(params@.take(params.len() as int) =~= params@);
    r
}

} // verus!
