//! Pauli-rotation gadgets (single-qubit rotations and the CX - rotation -
//! CX blocks that implement two-qubit Pauli rotations) and the structural
//! scan of a circuit that recognises qDRIFT sampling: which Pauli terms
//! were sampled, how often, with which angles, and how often consecutive
//! rotations change axis; and the circuit rebuilt from sampled terms.

use vstd::prelude::*;
use crate::circuit::{
    op1f, op2, repeated_qubit_message, reports, run, views, CircuitView, Fault, InstrView, Instruction, QuantumCircuit,
};
use crate::error::{error_text, MyQuatError, Result};
use crate::deoptimization::temporal::MAGNITUDE_BITS;
use crate::gates::{Parameter, StandardGate};

verus! {

/// Label of the Pauli axis of a rotation gate.
pub open spec fn rotation_label_spec(g: StandardGate) -> Option<Seq<char>> {
    match g {
        StandardGate::Rx => Some("X"@),
        StandardGate::Ry => Some("Y"@),
        StandardGate::Rz => Some("Z"@),
        _ => None,
    }
}

/// Categorise a gate as a Pauli rotation and return the label of its axis
pub fn rotation_label(gate: StandardGate) -> (r: Option<&'static str>)
    ensures
        match r {
            Some(s) => rotation_label_spec(gate) == Some(s@),
            None => rotation_label_spec(gate) is None,
        },
{
    match gate {
        StandardGate::Rx => Some("X"),
        StandardGate::Ry => Some("Y"),
        StandardGate::Rz => Some("Z"),
        _ => None,
    }
}

/// Whether `gate` is a two-qubit entangling gate of a Pauli gadget (CX, CZ)
pub fn is_entangling(gate: StandardGate) -> (r: bool)
    ensures
        r == (gate == StandardGate::CX || gate == StandardGate::CZ),
{
    gate == StandardGate::CX || gate == StandardGate::CZ
}

/// A gate occurrence inside a circuit.
#[derive(Debug, Clone)]
pub struct GateRecord {
    pub gate_type: StandardGate,
    pub qubits: Vec<usize>,
    /// Encoded first parameter, when it is a number
    pub param: Option<u64>,
}

/// Model of a gate occurrence.
pub struct RecordView {
    pub gate_type: StandardGate,
    pub qubits: Seq<usize>,
    pub param: Option<u64>,
}

impl View for GateRecord {
    type V = RecordView;

    open spec fn view(&self) -> RecordView {
        RecordView { gate_type: self.gate_type, qubits: self.qubits@, param: self.param }
    }
}

/// Models of a sequence of gate occurrences.
pub open spec fn record_views(gs: Seq<GateRecord>) -> Seq<RecordView> {
    gs.map_values(|g: GateRecord| g@)
}

/// The doubled label of a two-qubit Pauli rotation.
pub open spec fn doubled_label(l: Seq<char>) -> Seq<char> {
    if l == "X"@ {
        "XX"@
    } else if l == "Y"@ {
        "YY"@
    } else if l == "Z"@ {
        "ZZ"@
    } else {
        l
    }
}

/// The Pauli term, with its two qubits, of the rotation at `idx`: a
/// `CX(c, t) . R(t) . CX(c, t)` block gives the doubled label on `(c, t)`,
/// a lone rotation its label on `(t, t)`.
pub open spec fn gadget_at(gates: Seq<RecordView>, idx: int) -> Option<(Seq<char>, usize, usize)> {
    let g = gates[idx];
    match rotation_label_spec(g.gate_type) {
        None => None,
        Some(label) => if g.qubits.len() != 1 {
            Some((label, g.qubits[0], g.qubits[0]))
        } else {
            let tgt = g.qubits[0];
            if idx > 0 && idx + 1 < gates.len()
                && gates[idx - 1].gate_type == StandardGate::CX
                && gates[idx + 1].gate_type == StandardGate::CX
                && gates[idx - 1].qubits.len() == 2
                && gates[idx + 1].qubits.len() == 2
                && gates[idx - 1].qubits[1] == tgt
                && gates[idx + 1].qubits[1] == tgt
                && gates[idx - 1].qubits[0] == gates[idx + 1].qubits[0] {
                Some((doubled_label(label), gates[idx - 1].qubits[0], tgt))
            } else {
                Some((label, tgt, tgt))
            }
        },
    }
}

/// Recognise the Pauli term implemented around the rotation at `idx`
pub fn try_detect_pauli_gadget(gates: &Vec<GateRecord>, idx: usize) -> (r: Option<(&'static str, usize, usize)>)
    requires
        idx < gates@.len(),
        rotation_label_spec(gates@[idx as int].gate_type) is Some ==> gates@[idx as int].qubits@.len() >= 1,
    ensures
        match r {
            Some((s, a, b)) => gadget_at(record_views(gates@), idx as int) == Some((s@, a, b)),
            None => gadget_at(record_views(gates@), idx as int) is None,
        },
{
    let g = &gates[idx];
    let label = match rotation_label(g.gate_type) {
        Some(l) => l,
        None => return None,
    };
    if g.qubits.len() != 1 {
        return Some((label, g.qubits[0], g.qubits[0]));
    }
    let tgt = g.qubits[0];
    if idx > 0 && idx < gates.len() - 1 {
        let prev = &gates[idx - 1];
        let next = &gates[idx + 1];
        if prev.gate_type == StandardGate::CX && next.gate_type == StandardGate::CX && prev.qubits.len() == 2
            && next.qubits.len() == 2 {
            let prev_ctrl = prev.qubits[0];
            let prev_tgt = prev.qubits[1];
            let next_ctrl = next.qubits[0];
            let next_tgt = next.qubits[1];
            if prev_tgt == tgt && next_tgt == tgt && prev_ctrl == next_ctrl {
                let pauli_label: &'static str = match g.gate_type {
                    StandardGate::Rx => "XX",
                    StandardGate::Ry => "YY",
                    _ => "ZZ",
                };
                proof {
                    reveal_strlit("XX");
                    reveal_strlit("YY");
                    reveal_strlit("ZZ");
                    reveal_strlit("X");
                    reveal_strlit("Y");
                    reveal_strlit("Z");
                    if g.gate_type == StandardGate::Rx {
                        assert(label@ == "X"@);
                    } else if g.gate_type == StandardGate::Ry {
                        assert(label@ == "Y"@);
                        assert("Y"@[0] != "X"@[0]);
                    } else {
                        assert(label@ == "Z"@);
                        assert("Z"@[0] != "X"@[0]);
                        assert("Z"@[0] != "Y"@[0]);
                    }
                }
                return Some((pauli_label, prev_ctrl, tgt));
            }
        }
    }
    Some((label, tgt, tgt))
}

/// The first parameter of a gate, when it is a number (its encoding).
pub open spec fn first_number(ps: Seq<Parameter>) -> Option<u64> {
    if ps.len() > 0 {
        match ps[0] {
            Parameter::Float(b) => Some(b),
            _ => None,
        }
    } else {
        None
    }
}

/// The record of the instruction `o`.
pub open spec fn record_of(o: InstrView) -> RecordView {
    RecordView { gate_type: o.gate, qubits: o.qubits, param: first_number(o.params) }
}

/// The records of the instructions `ops`.
pub open spec fn records_of(ops: Seq<InstrView>) -> Seq<RecordView> {
    ops.map_values(|o: InstrView| record_of(o))
}

/// Copy of a list of qubit indices.
fn copy_indices(v: &Vec<usize>) -> (r: Vec<usize>)
    ensures
        r@ == v@,
{
    let mut r: Vec<usize> = Vec::new();
    let mut i: usize = 0;
    while i < v.len()
        invariant
            i <= v.len(),
            r@ == v@.take(i as int),
        decreases v.len() - i,
    {
        r.push(v[i]);
        i = i + 1;
        assert(r@ =~= v@.take(i as int));
    }
    assert(v@.take(v.len() as int) =~= v@);
    r
}

/// The gates of a circuit, in order, each with its qubits and its first
/// parameter when that is a number
pub fn extract_gates(circuit: &QuantumCircuit) -> (r: Vec<GateRecord>)
    ensures
        record_views(r@) == records_of(circuit@.ops),
{
    let instrs = circuit.instructions();
    let ghost ops = views(instrs@);
    assert(ops == circuit@.ops);
    let mut r: Vec<GateRecord> = Vec::new();
    let mut i: usize = 0;
    while i < instrs.len()
        invariant
            i <= instrs.len(),
            ops == views(instrs@),
            record_views(r@) == records_of(ops).take(i as int),
        decreases instrs.len() - i,
    {
        let inst = &instrs[i];
        assert(ops[i as int] == inst@);
        let param = if inst.gate.parameters.len() > 0 {
            match &inst.gate.parameters[0] {
                Parameter::Float(b) => Some(*b),
                _ => None,
            }
        } else {
            None
        };
        assert(param == first_number(inst@.params));
        let rec = GateRecord { gate_type: inst.gate.gate_type, qubits: copy_indices(&inst.qubits), param };
        assert(rec@ == record_of(ops[i as int]));
        let ghost before = r@;
        r.push(rec);
        assert(record_views(r@) =~= record_views(before).push(rec@));
        i = i + 1;
        assert(record_views(r@) =~= records_of(ops).take(i as int));
    }
    assert(records_of(ops).take(i as int) =~= records_of(ops));
    r
}

/// A sampled Pauli term: its label, the qubits it acts on and how often it
/// was sampled.
#[derive(Debug, Clone)]
pub struct TermTally {
    pub pauli: String,
    pub qubits: Vec<usize>,
    pub count: usize,
}

/// Model of a tally: label, qubits, count.
pub open spec fn tally_views(ts: Seq<TermTally>) -> Seq<(Seq<char>, Seq<usize>, nat)> {
    ts.map_values(|t: TermTally| (t.pauli@, t.qubits@, t.count as nat))
}

/// Index of the last term with `label`, or -1.
pub open spec fn label_index(terms: Seq<(Seq<char>, Seq<usize>, nat)>, label: Seq<char>) -> int
    decreases terms.len(),
{
    if terms.len() == 0 {
        -1
    } else if terms.last().0 == label {
        terms.len() - 1
    } else {
        label_index(terms.drop_last(), label)
    }
}

/// One more sample of `label`: its count goes up, or it is appended with
/// its qubits and a count of one.
pub open spec fn tallied(
    terms: Seq<(Seq<char>, Seq<usize>, nat)>,
    label: Seq<char>,
    qubits: Seq<usize>,
) -> Seq<(Seq<char>, Seq<usize>, nat)> {
    let k = label_index(terms, label);
    if k >= 0 {
        terms.update(k, (terms[k].0, terms[k].1, terms[k].2 + 1))
    } else {
        terms.push((label, qubits, 1))
    }
}

/// Qubits of a term found on `(a, b)`: both for a two-qubit gadget, one
/// for a lone rotation.
pub open spec fn term_qubits(a: usize, b: usize) -> Seq<usize> {
    if a != b {
        seq![a, b]
    } else {
        seq![a]
    }
}

/// State of the scan: rotations and entangling gates seen, the term
/// tally, the rotation angles (absolute values), and whether the next gate
/// closes a gadget already counted.
pub struct ScanView {
    pub rotations: nat,
    pub entangling: nat,
    pub terms: Seq<(Seq<char>, Seq<usize>, nat)>,
    pub angles: Seq<u64>,
    pub skip: bool,
}

/// The scan after gate `i`.
pub open spec fn scan_step(gates: Seq<RecordView>, i: int, s: ScanView) -> ScanView {
    if s.skip {
        ScanView { rotations: s.rotations, entangling: s.entangling, terms: s.terms, angles: s.angles, skip: false }
    } else if gates[i].gate_type == StandardGate::CX || gates[i].gate_type == StandardGate::CZ {
        ScanView { rotations: s.rotations, entangling: s.entangling + 1, terms: s.terms, angles: s.angles, skip: false }
    } else {
        match gadget_at(gates, i) {
            None => s,
            Some((label, a, b)) => ScanView {
                rotations: s.rotations + 1,
                entangling: s.entangling,
                terms: tallied(s.terms, label, term_qubits(a, b)),
                angles: match gates[i].param {
                    Some(p) => s.angles.push(p & MAGNITUDE_BITS),
                    None => s.angles,
                },
                skip: a != b,
            },
        }
    }
}

/// The scan over the first `n` gates.
pub open spec fn scan_prefix(gates: Seq<RecordView>, n: nat) -> ScanView
    decreases n,
{
    if n == 0 {
        ScanView { rotations: 0, entangling: 0, terms: Seq::empty(), angles: Seq::empty(), skip: false }
    } else {
        scan_step(gates, n - 1, scan_prefix(gates, (n - 1) as nat))
    }
}

/// Axis labels of the rotation gates, in order.
pub open spec fn rotation_labels(gates: Seq<RecordView>) -> Seq<Seq<char>>
    decreases gates.len(),
{
    if gates.len() == 0 {
        Seq::empty()
    } else {
        let rest = rotation_labels(gates.drop_last());
        match rotation_label_spec(gates.last().gate_type) {
            Some(l) => rest.push(l),
            None => rest,
        }
    }
}

/// Number of neighbouring entries of `ls` that differ.
pub open spec fn label_changes(ls: Seq<Seq<char>>) -> nat
    decreases ls.len(),
{
    if ls.len() < 2 {
        0
    } else {
        label_changes(ls.drop_last()) + if ls[ls.len() - 2] != ls[ls.len() - 1] {
            1nat
        } else {
            0nat
        }
    }
}

/// Structure of a circuit as qDRIFT sampling sees it.
#[derive(Debug, Clone)]
pub struct QdriftScan {
    /// Rotations, each one sampled term
    pub rotation_count: usize,
    /// CX and CZ gates outside the closing gate of a gadget
    pub entangling_count: usize,
    /// Sampled terms in order of first appearance
    pub terms: Vec<TermTally>,
    /// Absolute values of the numeric rotation angles (encodings)
    pub angles: Vec<u64>,
    /// Neighbouring rotations with different axes
    pub label_changes: usize,
}

/// Index of the last tally entry with label `label`.
fn find_label(terms: &Vec<TermTally>, label: &String) -> (r: Option<usize>)
    ensures
        match r {
            Some(k) => k as int == label_index(tally_views(terms@), label@) && k < terms@.len(),
            None => label_index(tally_views(terms@), label@) == -1,
        },
{
    let ghost tv = tally_views(terms@);
    let mut k: usize = terms.len();
    assert(tv.take(k as int) =~= tv);
    while k > 0
        invariant
            k <= terms@.len(),
            tv == tally_views(terms@),
            label_index(tv, label@) == label_index(tv.take(k as int), label@),
        decreases k,
    {
        let j = k - 1;
        assert(tv.take(k as int).drop_last() =~= tv.take(j as int));
        if terms[j].pauli == *label {
            return Some(j);
        }
        k = j;
    }
    None
}

/// Rotations with no qubit cannot be scanned.
pub open spec fn rotations_have_qubits(gates: Seq<RecordView>) -> bool {
    forall|k: int|
        0 <= k < gates.len() ==> (rotation_label_spec(#[trigger] gates[k].gate_type) is Some
            ==> gates[k].qubits.len() >= 1)
}

/// Scan the gates for sampled Pauli terms: a CX - rotation - CX gadget
/// is one two-qubit term (its closing CX is not counted again), a lone
/// rotation a one-qubit term; tallies the terms by label, collects the
/// absolute angles and counts the changes of axis between neighbouring
/// rotations
pub fn scan_gates(gates: &Vec<GateRecord>) -> (r: QdriftScan)
    requires
        rotations_have_qubits(record_views(gates@)),
    ensures
        r.rotation_count == scan_prefix(record_views(gates@), gates@.len()).rotations,
        r.entangling_count == scan_prefix(record_views(gates@), gates@.len()).entangling,
        tally_views(r.terms@) == scan_prefix(record_views(gates@), gates@.len()).terms,
        r.angles@ == scan_prefix(record_views(gates@), gates@.len()).angles,
        r.label_changes == label_changes(rotation_labels(record_views(gates@))),
{
    let mut rotation_count: usize = 0;
    let mut entangling_count: usize = 0;
    let mut terms: Vec<TermTally> = Vec::new();
    let mut angles: Vec<u64> = Vec::new();
    let mut skip = false;
    let mut i: usize = 0;
    while i < gates.len()
        invariant
            i <= gates@.len(),
            rotations_have_qubits(record_views(gates@)),
            ({
                let sv = scan_prefix(record_views(gates@), i as nat);
                &&& rotation_count == sv.rotations
                &&& entangling_count == sv.entangling
                &&& tally_views(terms@) == sv.terms
                &&& angles@ == sv.angles
                &&& skip == sv.skip
            }),
            rotation_count <= i,
            entangling_count <= i,
        decreases gates.len() - i,
    {
        let ghost before = scan_prefix(record_views(gates@), i as nat);
        assert(scan_prefix(record_views(gates@), (i + 1) as nat) == scan_step(record_views(gates@), i as int, before));
        if skip {
            skip = false;
        } else if is_entangling(gates[i].gate_type) {
            entangling_count = entangling_count + 1;
        } else {
            assert(rotation_label_spec(gates@[i as int].gate_type) is Some ==> gates@[i as int].qubits@.len() >= 1);
            match try_detect_pauli_gadget(gates, i) {
                None => {},
                Some((label, a, b)) => {
                    rotation_count = rotation_count + 1;
                    match gates[i].param {
                        Some(p) => angles.push(p & MAGNITUDE_BITS),
                        None => {},
                    }
                    let key = String::from_str(label);
                    let qubits: Vec<usize> = if a != b {
                        vec![a, b]
                    } else {
                        vec![a]
                    };
                    assert(qubits@ == term_qubits(a, b));
                    let ghost tv = tally_views(terms@);
                    match find_label(&terms, &key) {
                        Some(k) => {
                            let old_count = terms[k].count;
                            assert(old_count as nat == tv[k as int].2);
                            assert(old_count <= i) by {
                                lemma_tally_counts(record_views(gates@), i as nat);
                            }
                            let mut t = terms.remove(k);
                            t.count = old_count + 1;
                            terms.insert(k, t);
                            assert(tally_views(terms@) =~= tallied(tv, key@, term_qubits(a, b)));
                        },
                        None => {
                            terms.push(TermTally { pauli: key, qubits, count: 1 });
                            assert(tally_views(terms@) =~= tallied(tv, key@, term_qubits(a, b)));
                        },
                    }
                    skip = a != b;
                },
            }
        }
        i = i + 1;
    }
    let label_changes = count_label_changes(gates);
    QdriftScan { rotation_count, entangling_count, terms, angles, label_changes }
}

/// Every count in the tally after `n` gates is at most the number of
/// rotations, which is at most `n`.
proof fn lemma_tally_counts(gates: Seq<RecordView>, n: nat)
    ensures
        scan_prefix(gates, n).rotations <= n,
        forall|k: int|
            0 <= k < scan_prefix(gates, n).terms.len() ==> #[trigger] scan_prefix(gates, n).terms[k].2
                <= scan_prefix(gates, n).rotations,
    decreases n,
{
    if n > 0 {
        lemma_tally_counts(gates, (n - 1) as nat);
        let s = scan_prefix(gates, (n - 1) as nat);
        if !s.skip && !(gates[n - 1].gate_type == StandardGate::CX || gates[n - 1].gate_type == StandardGate::CZ) {
            match gadget_at(gates, n - 1) {
                None => {},
                Some((label, a, b)) => {
                    let t = tallied(s.terms, label, term_qubits(a, b));
                    lemma_label_index_range(s.terms, label);
                    assert forall|k: int| 0 <= k < t.len() implies #[trigger] t[k].2 <= s.rotations + 1 by {
                        if k < s.terms.len() {
                            assert(s.terms[k].2 <= s.rotations);
                        }
                    }
                },
            }
        }
    }
}

/// The index of a label is -1 or a position of the sequence holding it.
proof fn lemma_label_index_range(terms: Seq<(Seq<char>, Seq<usize>, nat)>, label: Seq<char>)
    ensures
        -1 <= label_index(terms, label) < terms.len(),
        label_index(terms, label) >= 0 ==> terms[label_index(terms, label)].0 == label,
    decreases terms.len(),
{
    if terms.len() > 0 {
        lemma_label_index_range(terms.drop_last(), label);
    }
}

/// Number of neighbouring rotations whose axes differ
pub fn count_label_changes(gates: &Vec<GateRecord>) -> (r: usize)
    ensures
        r == label_changes(rotation_labels(record_views(gates@))),
{
    let mut changes: usize = 0;
    let mut last: Option<&'static str> = None;
    let mut i: usize = 0;
    while i < gates.len()
        invariant
            i <= gates@.len(),
            ({
                let ls = rotation_labels(record_views(gates@).take(i as int));
                &&& changes == label_changes(ls)
                &&& changes <= ls.len()
                &&& ls.len() <= i
                &&& match last {
                    None => ls.len() == 0,
                    Some(l) => ls.len() > 0 && ls.last() == l@,
                }
            }),
        decreases gates.len() - i,
    {
        let ghost ls = rotation_labels(record_views(gates@).take(i as int));
        assert(record_views(gates@).take(i + 1).drop_last() =~= record_views(gates@).take(i as int));
        assert(record_views(gates@).take(i + 1).last() == record_views(gates@)[i as int]);
        match rotation_label(gates[i].gate_type) {
            Some(l) => {
                match last {
                    Some(p) => {
                        if !same_label(p, l) {
                            changes = changes + 1;
                        }
                    },
                    None => {},
                }
                assert(ls.push(l@).drop_last() =~= ls);
                last = Some(l);
            },
            None => {},
        }
        i = i + 1;
    }
    assert(record_views(gates@).take(gates@.len() as int) =~= record_views(gates@));
    changes
}

/// Whether two axis labels are equal.
fn same_label(a: &'static str, b: &'static str) -> (r: bool)
    ensures
        r == (a@ == b@),
{
    let x = String::from_str(a);
    let y = String::from_str(b);
    x == y
}

/// The structural scan of a circuit that may come from qDRIFT sampling: none
/// for fewer than four gates or fewer than three rotations
pub fn scan_qdrift_circuit(circuit: &QuantumCircuit) -> (r: Option<QdriftScan>)
    requires
        rotations_have_qubits(records_of(circuit@.ops)),
    ensures
        ({
            let gs = records_of(circuit@.ops);
            let sv = scan_prefix(gs, gs.len());
            match r {
                None => gs.len() < 4 || sv.rotations < 3,
                Some(scan) => {
                    &&& gs.len() >= 4
                    &&& sv.rotations >= 3
                    &&& scan.rotation_count == sv.rotations
                    &&& scan.entangling_count == sv.entangling
                    &&& tally_views(scan.terms@) == sv.terms
                    &&& scan.angles@ == sv.angles
                    &&& scan.label_changes == label_changes(rotation_labels(gs))
                },
            }
        }),
{
    let gates = extract_gates(circuit);
    if gates.len() < 4 {
        return None;
    }
    let scan = scan_gates(&gates);
    if scan.rotation_count < 3 {
        return None;
    }
    Some(scan)
}

/// Sum of the counts of a tally.
pub open spec fn tally_total(terms: Seq<(Seq<char>, Seq<usize>, nat)>) -> nat
    decreases terms.len(),
{
    if terms.len() == 0 {
        0
    } else {
        tally_total(terms.drop_last()) + terms.last().2
    }
}

/// No label occurs twice in a tally.
pub open spec fn labels_distinct(terms: Seq<(Seq<char>, Seq<usize>, nat)>) -> bool {
    forall|j: int, k: int| 0 <= j < k < terms.len() ==> terms[j].0 != terms[k].0
}

/// A label that is not found occurs nowhere.
proof fn lemma_label_absent(terms: Seq<(Seq<char>, Seq<usize>, nat)>, label: Seq<char>)
    requires
        label_index(terms, label) == -1,
    ensures
        forall|k: int| 0 <= k < terms.len() ==> terms[k].0 != label,
    decreases terms.len(),
{
    if terms.len() > 0 {
        lemma_label_absent(terms.drop_last(), label);
        assert forall|k: int| 0 <= k < terms.len() implies terms[k].0 != label by {
            if k < terms.len() - 1 {
                assert(terms[k] == terms.drop_last()[k]);
            }
        }
    }
}

/// Raising one count by one raises the total by one.
proof fn lemma_total_raise(terms: Seq<(Seq<char>, Seq<usize>, nat)>, k: int)
    requires
        0 <= k < terms.len(),
    ensures
        tally_total(terms.update(k, (terms[k].0, terms[k].1, terms[k].2 + 1))) == tally_total(terms) + 1,
    decreases terms.len(),
{
    let u = terms.update(k, (terms[k].0, terms[k].1, terms[k].2 + 1));
    if k == terms.len() - 1 {
        assert(u.drop_last() =~= terms.drop_last());
    } else {
        lemma_total_raise(terms.drop_last(), k);
        assert(u.drop_last() =~= terms.drop_last().update(k, (terms[k].0, terms[k].1, terms[k].2 + 1)));
    }
}

/// The tally of a scan names each Pauli term once, and its counts add up
/// to the number of rotations: every rotation is one sample of one term.
pub proof fn law_tally_counts_every_rotation_once(gates: Seq<RecordView>, n: nat)
    ensures
        labels_distinct(scan_prefix(gates, n).terms),
        tally_total(scan_prefix(gates, n).terms) == scan_prefix(gates, n).rotations,
    decreases n,
{
    if n > 0 {
        law_tally_counts_every_rotation_once(gates, (n - 1) as nat);
        let s = scan_prefix(gates, (n - 1) as nat);
        if !s.skip && !(gates[n - 1].gate_type == StandardGate::CX || gates[n - 1].gate_type == StandardGate::CZ) {
            match gadget_at(gates, n - 1) {
                None => {},
                Some((label, a, b)) => {
                    let t = tallied(s.terms, label, term_qubits(a, b));
                    lemma_label_index_range(s.terms, label);
                    let k = label_index(s.terms, label);
                    if k >= 0 {
                        lemma_total_raise(s.terms, k);
                        assert forall|i: int, j: int| 0 <= i < j < t.len() implies t[i].0 != t[j].0 by {
                            assert(t[i].0 == s.terms[i].0);
                            assert(t[j].0 == s.terms[j].0);
                        }
                    } else {
                        lemma_label_absent(s.terms, label);
                        assert(t.drop_last() =~= s.terms);
                        assert forall|i: int, j: int| 0 <= i < j < t.len() implies t[i].0 != t[j].0 by {
                            if j < s.terms.len() {
                                assert(t[i].0 == s.terms[i].0);
                                assert(t[j].0 == s.terms[j].0);
                            }
                        }
                    }
                },
            }
        }
    }
}

/// The rotation gate about the axis of a Pauli label.
pub open spec fn axis_rotation(label: Seq<char>) -> StandardGate {
    if label == "X"@ || label == "XX"@ {
        StandardGate::Rx
    } else if label == "Y"@ || label == "YY"@ {
        StandardGate::Ry
    } else {
        StandardGate::Rz
    }
}

/// Instructions that evolve under one term by `angle`: a rotation of each
/// of its qubits for a one-qubit label, a CX - rotation - CX gadget on its
/// first two qubits for a two-qubit label, nothing otherwise.
pub open spec fn term_ops(t: (Seq<char>, Seq<usize>, nat), angle: u64) -> Seq<InstrView> {
    if t.0 == "X"@ || t.0 == "Y"@ || t.0 == "Z"@ {
        t.1.map_values(|q: usize| op1f(axis_rotation(t.0), q, angle))
    } else if (t.0 == "XX"@ || t.0 == "YY"@ || t.0 == "ZZ"@) && t.1.len() >= 2 {
        seq![
            op2(StandardGate::CX, t.1[0], t.1[1]),
            op1f(axis_rotation(t.0), t.1[1], angle),
            op2(StandardGate::CX, t.1[0], t.1[1]),
        ]
    } else {
        Seq::empty()
    }
}

/// The instructions for the terms, each with its angle, in order.
pub open spec fn restore_ops(terms: Seq<(Seq<char>, Seq<usize>, nat)>, angles: Seq<u64>) -> Seq<InstrView>
    decreases terms.len(),
{
    if terms.len() == 0 {
        Seq::empty()
    } else {
        restore_ops(terms.drop_last(), angles.drop_last()) + term_ops(terms.last(), angles.last())
    }
}

/// Text of the error with which a circuit of the given widths rejects an
/// instruction for fault `f`.
pub open spec fn fault_text(f: Fault, num_qubits: usize, num_clbits: usize) -> Seq<char> {
    match f {
        Fault::Qubit(q) => error_text(MyQuatError::InvalidQubitIndex { index: q, num_qubits }),
        Fault::Clbit(c) => error_text(MyQuatError::InvalidClbitIndex { index: c, num_clbits }),
        Fault::Repeated => "Circuit construction error: "@ + repeated_qubit_message(),
    }
}

/// Whether a label is the given literal.
fn label_is(label: &String, lit: &str) -> (r: bool)
    ensures
        r == (label@ == lit@),
{
    *label == String::from_str(lit)
}

/// Instructions for one term.
fn term_instructions(t: &TermTally, angle: u64) -> (r: Vec<Instruction>)
    ensures
        views(r@) == term_ops((t.pauli@, t.qubits@, t.count as nat), angle),
{
    let ghost tv = (t.pauli@, t.qubits@, t.count as nat);
    proof {
        reveal_strlit("X");
        reveal_strlit("Y");
        reveal_strlit("Z");
        reveal_strlit("XX");
        reveal_strlit("YY");
        reveal_strlit("ZZ");
    }
    let mut r: Vec<Instruction> = Vec::new();
    let one = label_is(&t.pauli, "X") || label_is(&t.pauli, "Y") || label_is(&t.pauli, "Z");
    let two = label_is(&t.pauli, "XX") || label_is(&t.pauli, "YY") || label_is(&t.pauli, "ZZ");
    let gate = if label_is(&t.pauli, "X") || label_is(&t.pauli, "XX") {
        StandardGate::Rx
    } else if label_is(&t.pauli, "Y") || label_is(&t.pauli, "YY") {
        StandardGate::Ry
    } else {
        StandardGate::Rz
    };
    assert(gate == axis_rotation(t.pauli@));
    if one {
        let mut i: usize = 0;
        while i < t.qubits.len()
            invariant
                i <= t.qubits@.len(),
                gate == axis_rotation(t.pauli@),
                views(r@) == t.qubits@.take(i as int).map_values(|q: usize| op1f(gate, q, angle)),
            decreases t.qubits.len() - i,
        {
            let ghost before = r@;
            r.push(Instruction::rotation(gate, t.qubits[i], Parameter::Float(angle)));
            i = i + 1;
            assert(views(r@) =~= views(before).push(op1f(gate, t.qubits@[i - 1], angle)));
            assert(views(r@) =~= t.qubits@.take(i as int).map_values(|q: usize| op1f(gate, q, angle)));
        }
        assert(t.qubits@.take(i as int) =~= t.qubits@);
    } else if two && t.qubits.len() >= 2 {
        let q0 = t.qubits[0];
        let q1 = t.qubits[1];
        r.push(Instruction::pair(StandardGate::CX, q0, q1));
        r.push(Instruction::rotation(gate, q1, Parameter::Float(angle)));
        r.push(Instruction::pair(StandardGate::CX, q0, q1));
        assert(views(r@) =~= term_ops(tv, angle));
    } else {
        assert(views(r@) =~= term_ops(tv, angle));
    }
    r
}

/// Reconstruct a circuit of `num_qubits` qubits that evolves under each
/// sampled term once, term `k` by `angles[k]`; an instruction the circuit
/// rejects fails the whole reconstruction with a circuit error that quotes
/// the rejection
pub fn qdrift_restore(num_qubits: usize, terms: &Vec<TermTally>, angles: &Vec<u64>) -> (r: Result<QuantumCircuit>)
    requires
        terms@.len() == angles@.len(),
    ensures
        ({
            let out = run(
                CircuitView { num_qubits, num_clbits: 0, ops: Seq::empty() },
                restore_ops(tally_views(terms@), angles@),
            );
            match r {
                Ok(c) => out.1 is None && c@ == out.0,
                Err(e) => {
                    &&& out.1 is Some
                    &&& e matches MyQuatError::CircuitError { message }
                    &&& message@ == fault_text(out.1->0, num_qubits, 0)
                },
            }
        }),
{
    let mut instrs: Vec<Instruction> = Vec::new();
    let mut k: usize = 0;
    while k < terms.len()
        invariant
            k <= terms@.len(),
            terms@.len() == angles@.len(),
            views(instrs@) == restore_ops(tally_views(terms@).take(k as int), angles@.take(k as int)),
        decreases terms.len() - k,
    {
        let mut more = term_instructions(&terms[k], angles[k]);
        instrs.append(&mut more);
        k = k + 1;
        proof {
            let tv = tally_views(terms@).take(k as int);
            let av = angles@.take(k as int);
            assert(tv.drop_last() =~= tally_views(terms@).take(k - 1));
            assert(av.drop_last() =~= angles@.take(k - 1));
        }
        assert(views(instrs@) =~= restore_ops(tally_views(terms@).take(k as int), angles@.take(k as int)));
    }
    assert(tally_views(terms@).take(k as int) =~= tally_views(terms@));
    assert(angles@.take(k as int) =~= angles@);
    let mut c = QuantumCircuit::new(num_qubits, 0);
    match c.append_all(instrs) {
        Ok(()) => Ok(c),
        Err(e) => {
            let text = e.to_string();
            Err(MyQuatError::circuit_error(text.as_str()))
        },
    }
}

} // verus!
