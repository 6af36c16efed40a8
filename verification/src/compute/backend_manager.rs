//! Choosing a compute backend for a circuit from what the registered
//! backends report about themselves.

use vstd::prelude::*;
use vstd::string::StringExecFns;
use crate::compute::types::SelectionStrategy;
use crate::error::{is_circuit_error, MyQuatError, Result};

verus! {

/// What a registered backend reports for the circuit at hand.
#[derive(Debug, Clone)]
pub struct BackendFacts {
    /// Registered name
    pub name: String,
    /// The backend can run now
    pub available: bool,
    /// The backend accepts the circuit
    pub compatible: bool,
    /// The backend is a cloud service
    pub cloud: bool,
}

/// `i` is the position of the first backend called `name`.
pub open spec fn first_named(bs: Seq<BackendFacts>, name: Seq<char>, i: int) -> bool {
    &&& 0 <= i < bs.len()
    &&& bs[i].name@ == name
    &&& forall|j: int| 0 <= j < i ==> (#[trigger] bs[j]).name@ != name
}

/// Position of the first backend called `name`, if any.
pub open spec fn position_of(bs: Seq<BackendFacts>, name: Seq<char>) -> Option<int> {
    if exists|i: int| first_named(bs, name, i) {
        Some(choose|i: int| first_named(bs, name, i))
    } else {
        None
    }
}

/// The backend can run the circuit now.
pub open spec fn usable(b: BackendFacts) -> bool {
    b.available && b.compatible
}

/// `i` is the position of the first usable cloud backend.
pub open spec fn first_cloud_at(bs: Seq<BackendFacts>, i: int) -> bool {
    &&& 0 <= i < bs.len()
    &&& bs[i].cloud && usable(bs[i])
    &&& forall|j: int| 0 <= j < i ==> !((#[trigger] bs[j]).cloud && usable(bs[j]))
}

/// Position of the first usable cloud backend, if any.
pub open spec fn first_cloud(bs: Seq<BackendFacts>) -> Option<int> {
    if exists|i: int| first_cloud_at(bs, i) {
        Some(choose|i: int| first_cloud_at(bs, i))
    } else {
        None
    }
}

/// The backend called `name` exists, accepts the circuit, and, when
/// `need_available`, can run now.
pub open spec fn named_passes(bs: Seq<BackendFacts>, name: Seq<char>, need_available: bool) -> bool {
    &&& position_of(bs, name) is Some
    &&& bs[position_of(bs, name).unwrap()].compatible
    &&& (!need_available || bs[position_of(bs, name).unwrap()].available)
}

/// Message for a backend name that is not registered.
pub open spec fn missing_backend_message(name: Seq<char>) -> Seq<char> {
    "Backend '"@ + name + "' not found"@
}

/// The outcome of automatic selection: the position of the chosen backend,
/// or the message of the error.
///
/// A usable preferred backend wins. A request for the cloud takes the first
/// usable cloud backend. Below 10 qubits the usable "simd" backend, else the
/// compatible "cpu" backend; from 10 to 19 qubits the usable "gpu" backend
/// when GPUs are allowed, else the usable "parallel" backend; from 20 qubits
/// the usable "gpu" backend when allowed, else the first usable cloud
/// backend. Otherwise the default backend, when there is one.
pub open spec fn auto_choice(
    bs: Seq<BackendFacts>,
    prefer: Option<Seq<char>>,
    prefer_cloud: bool,
    allow_gpu: bool,
    num_qubits: nat,
    default: Option<Seq<char>>,
) -> core::result::Result<int, Seq<char>> {
    if prefer is Some && position_of(bs, prefer.unwrap()) is Some
        && usable(bs[position_of(bs, prefer.unwrap()).unwrap()]) {
        Ok(position_of(bs, prefer.unwrap()).unwrap())
    } else if prefer_cloud {
        match first_cloud(bs) {
            Some(i) => Ok(i),
            None => Err("No cloud backend available"@),
        }
    } else if num_qubits < 10 && named_passes(bs, "simd"@, true) {
        Ok(position_of(bs, "simd"@).unwrap())
    } else if num_qubits < 10 && named_passes(bs, "cpu"@, false) {
        Ok(position_of(bs, "cpu"@).unwrap())
    } else if 10 <= num_qubits < 20 && allow_gpu && named_passes(bs, "gpu"@, true) {
        Ok(position_of(bs, "gpu"@).unwrap())
    } else if 10 <= num_qubits < 20 && named_passes(bs, "parallel"@, true) {
        Ok(position_of(bs, "parallel"@).unwrap())
    } else if num_qubits >= 20 && allow_gpu && named_passes(bs, "gpu"@, true) {
        Ok(position_of(bs, "gpu"@).unwrap())
    } else if num_qubits >= 20 && first_cloud(bs) is Some {
        Ok(first_cloud(bs).unwrap())
    } else {
        match default {
            Some(d) => match position_of(bs, d) {
                Some(i) => Ok(i),
                None => Err(missing_backend_message(d)),
            },
            None => Err("No suitable backend found"@),
        }
    }
}

/// The outcome of selection under a strategy: a manual choice names the
/// backend; the other strategies select automatically.
pub open spec fn strategy_choice(
    strategy: SelectionStrategy,
    bs: Seq<BackendFacts>,
    prefer: Option<Seq<char>>,
    prefer_cloud: bool,
    allow_gpu: bool,
    num_qubits: nat,
    default: Option<Seq<char>>,
) -> core::result::Result<int, Seq<char>> {
    match strategy {
        SelectionStrategy::Manual(name) => match position_of(bs, name@) {
            Some(i) => Ok(i),
            None => Err(missing_backend_message(name@)),
        },
        _ => auto_choice(bs, prefer, prefer_cloud, allow_gpu, num_qubits, default),
    }
}

/// Position of the first backend called `name`
pub fn find_backend(bs: &Vec<BackendFacts>, name: &str) -> (r: Option<usize>)
    ensures
        match r {
            Some(k) => position_of(bs@, name@) == Some(k as int),
            None => position_of(bs@, name@) is None,
        },
{
    let target = String::from_str(name);
    let mut i: usize = 0;
    while i < bs.len()
        invariant
            i <= bs.len(),
            target@ == name@,
            forall|j: int| 0 <= j < i ==> (#[trigger] bs@[j]).name@ != name@,
        decreases bs.len() - i,
    {
        if bs[i].name == target {
            proof {
                assert(first_named(bs@, name@, i as int));
                let k = choose|k: int| first_named(bs@, name@, k);
                assert(first_named(bs@, name@, k));
                if k < i {
                    assert(bs@[k].name@ != name@);
                }
                if k > i {
                    assert(bs@[i as int].name@ != name@);
                }
            }
            return Some(i);
        }
        i = i + 1;
    }
    proof {
        if exists|k: int| first_named(bs@, name@, k) {
            let k = choose|k: int| first_named(bs@, name@, k);
            assert(bs@[k].name@ != name@);
        }
    }
    None
}

/// Position of the first usable cloud backend
pub fn find_cloud_backend(bs: &Vec<BackendFacts>) -> (r: Option<usize>)
    ensures
        match r {
            Some(k) => first_cloud(bs@) == Some(k as int),
            None => first_cloud(bs@) is None,
        },
{
    let mut i: usize = 0;
    while i < bs.len()
        invariant
            i <= bs.len(),
            forall|j: int| 0 <= j < i ==> !((#[trigger] bs@[j]).cloud && usable(bs@[j])),
        decreases bs.len() - i,
    {
        if bs[i].cloud && bs[i].available && bs[i].compatible {
            proof {
                assert(first_cloud_at(bs@, i as int));
                let k = choose|k: int| first_cloud_at(bs@, k);
                assert(first_cloud_at(bs@, k));
                if k < i {
                    assert(!(bs@[k].cloud && usable(bs@[k])));
                }
                if k > i {
                    assert(!(bs@[i as int].cloud && usable(bs@[i as int])));
                }
            }
            return Some(i);
        }
        i = i + 1;
    }
    proof {
        if exists|k: int| first_cloud_at(bs@, k) {
            let k = choose|k: int| first_cloud_at(bs@, k);
            assert(!(bs@[k].cloud && usable(bs@[k])));
        }
    }
    None
}

fn named_ok(bs: &Vec<BackendFacts>, name: &str, need_available: bool) -> (r: Option<usize>)
    ensures
        match r {
            Some(k) => named_passes(bs@, name@, need_available) && position_of(bs@, name@) == Some(k as int),
            None => !named_passes(bs@, name@, need_available),
        },
{
    match find_backend(bs, name) {
        Some(i) => {
            if bs[i].compatible && (!need_available || bs[i].available) {
                Some(i)
            } else {
                None
            }
        },
        None => None,
    }
}

fn missing_backend(name: &str) -> (e: MyQuatError)
    ensures
        is_circuit_error(e, missing_backend_message(name@)),
{
    let mut s = String::from_str("Backend '");
    s.append(name);
    s.append("' not found");
    MyQuatError::circuit_error(s.as_str())
}

/// Choose a backend automatically: returns the position of the chosen
/// backend in `bs`
pub fn auto_select(
    bs: &Vec<BackendFacts>,
    prefer_backend: &Option<String>,
    prefer_cloud: bool,
    allow_gpu: bool,
    num_qubits: usize,
    default_backend: &Option<String>,
) -> (r: Result<usize>)
    ensures
        match auto_choice(
            bs@,
            match prefer_backend { Some(p) => Some(p@), None => None },
            prefer_cloud,
            allow_gpu,
            num_qubits as nat,
            match default_backend { Some(d) => Some(d@), None => None },
        ) {
            Ok(i) => r matches Ok(k) && k as int == i,
            Err(msg) => r matches Err(e) && is_circuit_error(e, msg),
        },
{
    match prefer_backend {
        Some(p) => {
            match find_backend(bs, p.as_str()) {
                Some(i) => {
                    if bs[i].available && bs[i].compatible {
                        return Ok(i);
                    }
                },
                None => {},
            }
        },
        None => {},
    }
    if prefer_cloud {
        return match find_cloud_backend(bs) {
            Some(i) => Ok(i),
            None => Err(MyQuatError::circuit_error("No cloud backend available")),
        };
    }
    if num_qubits < 10 {
        match named_ok(bs, "simd", true) {
            Some(i) => return Ok(i),
            None => {},
        }
        match named_ok(bs, "cpu", false) {
            Some(i) => return Ok(i),
            None => {},
        }
    }
    if 10 <= num_qubits && num_qubits < 20 {
        if allow_gpu {
            match named_ok(bs, "gpu", true) {
                Some(i) => return Ok(i),
                None => {},
            }
        }
        match named_ok(bs, "parallel", true) {
            Some(i) => return Ok(i),
            None => {},
        }
    }
    if num_qubits >= 20 {
        if allow_gpu {
            match named_ok(bs, "gpu", true) {
                Some(i) => return Ok(i),
                None => {},
            }
        }
        match find_cloud_backend(bs) {
            Some(i) => return Ok(i),
            None => {},
        }
    }
    match default_backend {
        Some(d) => match find_backend(bs, d.as_str()) {
            Some(i) => Ok(i),
            None => Err(missing_backend(d.as_str())),
        },
        None => Err(MyQuatError::circuit_error("No suitable backend found")),
    }
}

/// Choose a backend under a selection strategy: returns the position of the
/// chosen backend in `bs`
pub fn select_backend(
    strategy: &SelectionStrategy,
    bs: &Vec<BackendFacts>,
    prefer_backend: &Option<String>,
    prefer_cloud: bool,
    allow_gpu: bool,
    num_qubits: usize,
    default_backend: &Option<String>,
) -> (r: Result<usize>)
    ensures
        match strategy_choice(
            *strategy,
            bs@,
            match prefer_backend { Some(p) => Some(p@), None => None },
            prefer_cloud,
            allow_gpu,
            num_qubits as nat,
            match default_backend { Some(d) => Some(d@), None => None },
        ) {
            Ok(i) => r matches Ok(k) && k as int == i,
            Err(msg) => r matches Err(e) && is_circuit_error(e, msg),
        },
{
    match strategy {
        SelectionStrategy::Manual(name) => match find_backend(bs, name.as_str()) {
            Some(i) => Ok(i),
            None => Err(missing_backend(name.as_str())),
        },
        _ => auto_select(bs, prefer_backend, prefer_cloud, allow_gpu, num_qubits, default_backend),
    }
}

} // verus!
