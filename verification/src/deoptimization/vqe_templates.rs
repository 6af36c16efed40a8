//! Variational ansatz templates and the structure checks used to recognise
//! them: rotation layers, entangling layers and their connection patterns.

use vstd::prelude::*;
use crate::circuit::{
    append_tracked, lemma_fault_stops, op1f, op2, repeated_qubit_message, reports, run, views, CircuitView, Fault,
    InstrView, Instruction, QuantumCircuit,
};
use crate::error::{error_text, is_circuit_error, MyQuatError, Result};
use crate::text::decimal_spec;
use crate::gates::{Parameter, StandardGate};

verus! {

/// Entanglement pattern used in VQE ansatz layers
#[derive(Debug, Clone, PartialEq)]
pub enum EntanglementPattern {
    /// Linear: CNOT(i, i+1) for consecutive qubits
    Linear,
    /// Full: all-to-all CNOT connections
    Full,
    /// Circular: linear + wrap-around CNOT(n-1, 0)
    Circular,
    /// Custom pairs
    Custom(Vec<(usize, usize)>),
}

/// Mathematical model of an entanglement pattern.
pub enum PatternView {
    Linear,
    Full,
    Circular,
    Custom(Seq<(usize, usize)>),
}

impl View for EntanglementPattern {
    type V = PatternView;

    open spec fn view(&self) -> PatternView {
        match self {
            EntanglementPattern::Linear => PatternView::Linear,
            EntanglementPattern::Full => PatternView::Full,
            EntanglementPattern::Circular => PatternView::Circular,
            EntanglementPattern::Custom(p) => PatternView::Custom(p@),
        }
    }
}

/// An exact copy of a list of pairs.
fn copy_pairs(p: &Vec<(usize, usize)>) -> (r: Vec<(usize, usize)>)
    ensures
        r@ == p@,
{
    let mut r: Vec<(usize, usize)> = Vec::new();
    let mut i: usize = 0;
    while i < p.len()
        invariant
            i <= p.len(),
            r@ == p@.take(i as int),
        decreases p.len() - i,
    {
        let (a, b) = p[i];
        r.push((a, b));
        assert(r@ =~= p@.take(i + 1));
        i = i + 1;
    }
    assert(p@.take(p.len() as int) =~= p@);
    r
}

impl EntanglementPattern {
    /// An exact copy of the pattern.
    pub fn duplicate(&self) -> (r: Self)
        ensures
            r@ == self@,
    {
        match self {
            EntanglementPattern::Linear => EntanglementPattern::Linear,
            EntanglementPattern::Full => EntanglementPattern::Full,
            EntanglementPattern::Circular => EntanglementPattern::Circular,
            EntanglementPattern::Custom(p) => EntanglementPattern::Custom(copy_pairs(p)),
        }
    }
}

/// VQE ansatz type classification
#[derive(Debug, Clone, Copy, PartialEq, Eq, Structural)]
pub enum VQEType {
    /// Hardware Efficient Ansatz with rotation + entanglement layers
    HardwareEfficient,
    /// Unitary Coupled Cluster Singles and Doubles
    UCCSD,
    /// Real amplitudes ansatz (RY + CX only)
    RealAmplitudes,
    /// EfficientSU2 ansatz
    EfficientSU2,
    /// Unknown VQE variant
    Unknown,
}

/// Rotation gate type used in ansatz layers
#[derive(Debug, Clone, Copy, PartialEq, Eq, Hash, Structural)]
pub enum RotationType {
    RY,
    RZ,
    RX,
}

/// Gate kind of a rotation type.
pub open spec fn rotation_gate(t: RotationType) -> StandardGate {
    match t {
        RotationType::RY => StandardGate::Ry,
        RotationType::RZ => StandardGate::Rz,
        RotationType::RX => StandardGate::Rx,
    }
}

impl RotationType {
    /// Whether `gate` is this rotation type's gate kind
    pub fn matches_gate(&self, gate: StandardGate) -> (r: bool)
        ensures
            r == (gate == rotation_gate(*self)),
    {
        match self {
            RotationType::RY => gate == StandardGate::Ry,
            RotationType::RZ => gate == StandardGate::Rz,
            RotationType::RX => gate == StandardGate::Rx,
        }
    }
}

/// A single layer in a VQE ansatz circuit
#[derive(Debug, Clone, PartialEq)]
pub enum AnsatzLayer {
    /// Rotation layer: parallel single-qubit rotations on all qubits
    Rotation {
        rotation_type: RotationType,
        /// Encoded parameter values (one per qubit)
        params: Vec<u64>,
    },
    /// Entanglement layer: two-qubit entangling gates
    Entanglement { pattern: EntanglementPattern, gate: StandardGate },
}

/// Mathematical model of a layer.
pub enum LayerView {
    Rotation { rotation_type: RotationType, params: Seq<u64> },
    Entanglement { pattern: PatternView, gate: StandardGate },
}

impl View for AnsatzLayer {
    type V = LayerView;

    open spec fn view(&self) -> LayerView {
        match self {
            AnsatzLayer::Rotation { rotation_type, params } => LayerView::Rotation {
                rotation_type: *rotation_type,
                params: params@,
            },
            AnsatzLayer::Entanglement { pattern, gate } => LayerView::Entanglement {
                pattern: pattern@,
                gate: *gate,
            },
        }
    }
}

/// The views of a sequence of layers.
pub open spec fn layer_views(s: Seq<AnsatzLayer>) -> Seq<LayerView> {
    s.map_values(|l: AnsatzLayer| l@)
}

/// Hardware Efficient Ansatz template
#[derive(Debug, Clone)]
pub struct HEATemplate {
    /// Number of qubits
    pub num_qubits: usize,
    /// Number of repetition layers (each layer = rotation + entanglement)
    pub num_layers: usize,
    /// Rotation gate types per sub-layer (e.g. [RY, RZ] means each layer has RY then RZ)
    pub rotation_gates: Vec<RotationType>,
    /// Entanglement pattern
    pub entanglement: EntanglementPattern,
    /// Entangling gate type (usually CX)
    pub entangling_gate: StandardGate,
}

/// Number of entangling gates per layer for a pattern on `n` qubits.
pub open spec fn entangling_per_layer(p: PatternView, n: nat) -> int {
    match p {
        PatternView::Linear => if n == 0 { 0 } else { n - 1 },
        PatternView::Full => n * (n - 1) / 2,
        PatternView::Circular => n as int,
        PatternView::Custom(pairs) => pairs.len() as int,
    }
}

/// Number of gates of a template: every layer has one rotation per qubit
/// per rotation type, and its entangling gates.
pub open spec fn template_gate_count(t: HEATemplate) -> int {
    t.num_layers * (t.rotation_gates@.len() * t.num_qubits + entangling_per_layer(t.entanglement@, t.num_qubits as nat))
}

impl HEATemplate {
    /// Create a standard RealAmplitudes template (RY + linear CX)
    pub fn real_amplitudes(num_qubits: usize, num_layers: usize) -> (r: Self)
        ensures
            r.num_qubits == num_qubits,
            r.num_layers == num_layers,
            r.rotation_gates@ == seq![RotationType::RY],
            r.entanglement@ == PatternView::Linear,
            r.entangling_gate == StandardGate::CX,
    {
        let r = HEATemplate {
            num_qubits,
            num_layers,
            rotation_gates: vec![RotationType::RY],
            entanglement: EntanglementPattern::Linear,
            entangling_gate: StandardGate::CX,
        };
        assert(r.rotation_gates@ =~= seq![RotationType::RY]);
        r
    }

    /// Create a standard EfficientSU2 template (RY + RZ + linear CX)
    pub fn efficient_su2(num_qubits: usize, num_layers: usize) -> (r: Self)
        ensures
            r.num_qubits == num_qubits,
            r.num_layers == num_layers,
            r.rotation_gates@ == seq![RotationType::RY, RotationType::RZ],
            r.entanglement@ == PatternView::Linear,
            r.entangling_gate == StandardGate::CX,
    {
        let r = HEATemplate {
            num_qubits,
            num_layers,
            rotation_gates: vec![RotationType::RY, RotationType::RZ],
            entanglement: EntanglementPattern::Linear,
            entangling_gate: StandardGate::CX,
        };
        assert(r.rotation_gates@ =~= seq![RotationType::RY, RotationType::RZ]);
        r
    }

    /// Expected number of gates in a circuit matching this template
    pub fn expected_gate_count(&self) -> (r: usize)
        requires
            self.entanglement@ is Full ==> self.num_qubits >= 1,
            self.rotation_gates@.len() * self.num_qubits <= usize::MAX,
            self.rotation_gates@.len() * self.num_qubits
                + entangling_per_layer(self.entanglement@, self.num_qubits as nat) <= usize::MAX,
            template_gate_count(*self) <= usize::MAX,
            self.entanglement@ is Full ==> self.num_qubits * (self.num_qubits - 1) <= usize::MAX,
        ensures
            r == template_gate_count(*self),
    {
        let n = self.num_qubits;
        let rotation_per_layer = self.rotation_gates.len() * n;
        let entangling = match &self.entanglement {
            EntanglementPattern::Linear => n.saturating_sub(1),
            EntanglementPattern::Full => n * (n - 1) / 2,
            EntanglementPattern::Circular => n,
            EntanglementPattern::Custom(pairs) => pairs.len(),
        };
        let per_layer = rotation_per_layer + entangling;
        assert(self.num_layers * per_layer == template_gate_count(*self));
        self.num_layers * per_layer
    }
}

/// Rotations about a single axis.
pub open spec fn rotation_kind(g: StandardGate) -> bool {
    g == StandardGate::Rx || g == StandardGate::Ry || g == StandardGate::Rz
}

/// Gates that entangle pairs of qubits in an ansatz.
pub open spec fn entangling_kind(g: StandardGate) -> bool {
    g == StandardGate::CX || g == StandardGate::CZ || g == StandardGate::CY || g == StandardGate::Swap
}

/// Whether `g` is a single-axis rotation
pub fn is_rotation_gate(g: StandardGate) -> (r: bool)
    ensures
        r == rotation_kind(g),
{
    g == StandardGate::Rx || g == StandardGate::Ry || g == StandardGate::Rz
}

/// Whether `g` is an entangling gate of an ansatz
pub fn is_entangling_gate(g: StandardGate) -> (r: bool)
    ensures
        r == entangling_kind(g),
{
    g == StandardGate::CX || g == StandardGate::CZ || g == StandardGate::CY || g == StandardGate::Swap
}

/// The pairs `(i, i + 1)` for consecutive qubits among `n`.
pub open spec fn linear_pairs(n: nat) -> Seq<(usize, usize)> {
    Seq::new(if n == 0 { 0 } else { (n - 1) as nat }, |i: int| (i as usize, (i + 1) as usize))
}

/// The linear pairs closed into a ring by `(n - 1, 0)` when there are two or more qubits.
pub open spec fn circular_pairs(n: nat) -> Seq<(usize, usize)> {
    if n > 1 {
        linear_pairs(n).push(((n - 1) as usize, 0usize))
    } else {
        linear_pairs(n)
    }
}

/// Number of pairs `i < j` among `n` qubits.
pub open spec fn full_pair_count(n: nat) -> int {
    n * (n - 1) / 2
}

/// The pattern that a list of entangling pairs on `n` qubits forms.
pub open spec fn inferred_pattern(pairs: Seq<(usize, usize)>, n: nat) -> PatternView {
    if pairs.len() == 0 {
        PatternView::Linear
    } else if pairs == linear_pairs(n) {
        PatternView::Linear
    } else if pairs == circular_pairs(n) {
        PatternView::Circular
    } else if pairs.len() == full_pair_count(n) {
        PatternView::Full
    } else {
        PatternView::Custom(pairs)
    }
}

/// Whether `pairs` equals the linear pairs of `n` qubits, followed by `extra` when given.
fn matches_chain(pairs: &Vec<(usize, usize)>, n: usize, extra: Option<(usize, usize)>) -> (r: bool)
    ensures
        r == (pairs@ == match extra {
            Some(e) => linear_pairs(n as nat).push(e),
            None => linear_pairs(n as nat),
        }),
{
    let m = n.saturating_sub(1);
    let ghost target = match extra {
        Some(e) => linear_pairs(n as nat).push(e),
        None => linear_pairs(n as nat),
    };
    let expected_len: usize = match extra {
        Some(_) => {
            if m == usize::MAX {
                return false;
            }
            m + 1
        },
        None => m,
    };
    if pairs.len() != expected_len {
        return false;
    }
    let mut i: usize = 0;
    while i < pairs.len()
        invariant
            i <= pairs.len(),
            pairs.len() == expected_len,
            target.len() == expected_len,
            m == if n == 0 { 0 } else { n - 1 },
            target == match extra {
                Some(e) => linear_pairs(n as nat).push(e),
                None => linear_pairs(n as nat),
            },
            forall|j: int| 0 <= j < i ==> pairs@[j] == target[j],
        decreases pairs.len() - i,
    {
        let (a, b) = pairs[i];
        let ok = if i < m {
            a == i && b == i + 1
        } else {
            match extra {
                Some(e) => a == e.0 && b == e.1,
                None => false,
            }
        };
        if !ok {
            return false;
        }
        i = i + 1;
    }
    assert(pairs@ =~= target);
    true
}

/// Infer entanglement pattern from observed entangling pairs
pub fn infer_entanglement_pattern(pairs: &Vec<(usize, usize)>, num_qubits: usize) -> (r: EntanglementPattern)
    ensures
        r@ == inferred_pattern(pairs@, num_qubits as nat),
{
    if pairs.len() == 0 {
        return EntanglementPattern::Linear;
    }
    if matches_chain(pairs, num_qubits, None) {
        return EntanglementPattern::Linear;
    }
    let closing: Option<(usize, usize)> = if num_qubits > 1 { Some((num_qubits - 1, 0)) } else { None };
    if matches_chain(pairs, num_qubits, closing) {
        return EntanglementPattern::Circular;
    }
    let n = num_qubits as u128;
    let len = pairs.len() as u128;
    let full: u128 = if n == 0 {
        0
    } else {
        assert(n * (n - 1) <= 0xffff_ffff_ffff_ffff * 0xffff_ffff_ffff_ffffu128) by (nonlinear_arith)
            requires n <= 0xffff_ffff_ffff_ffffu128, n >= 1;
        n * (n - 1) / 2
    };
    if len == full {
        return EntanglementPattern::Full;
    }
    EntanglementPattern::Custom(copy_pairs(pairs))
}

/// Number of rotation layers and of entanglement layers.
pub open spec fn layer_counts(layers: Seq<LayerView>) -> (nat, nat)
    decreases layers.len(),
{
    if layers.len() == 0 {
        (0, 0)
    } else {
        let c = layer_counts(layers.drop_last());
        match layers.last() {
            LayerView::Rotation { .. } => ((c.0 + 1) as nat, c.1),
            LayerView::Entanglement { .. } => (c.0, (c.1 + 1) as nat),
        }
    }
}

proof fn lemma_layer_counts_bound(layers: Seq<LayerView>)
    ensures
        layer_counts(layers).0 + layer_counts(layers).1 == layers.len(),
    decreases layers.len(),
{
    if layers.len() > 0 {
        lemma_layer_counts_bound(layers.drop_last());
    }
}

/// Count rotation layers and entanglement layers
pub fn count_layer_types(layers: &Vec<AnsatzLayer>) -> (r: (usize, usize))
    ensures
        r.0 == layer_counts(layer_views(layers@)).0,
        r.1 == layer_counts(layer_views(layers@)).1,
{
    let mut rot: usize = 0;
    let mut ent: usize = 0;
    let mut i: usize = 0;
    while i < layers.len()
        invariant
            i <= layers.len(),
            rot == layer_counts(layer_views(layers@).take(i as int)).0,
            ent == layer_counts(layer_views(layers@).take(i as int)).1,
        decreases layers.len() - i,
    {
        proof {
            let t = layer_views(layers@).take(i + 1);
            assert(t.drop_last() =~= layer_views(layers@).take(i as int));
            lemma_layer_counts_bound(layer_views(layers@).take(i as int));
        }
        match &layers[i] {
            AnsatzLayer::Rotation { .. } => rot = rot + 1,
            AnsatzLayer::Entanglement { .. } => ent = ent + 1,
        }
        i = i + 1;
    }
    assert(layer_views(layers@).take(layers.len() as int) =~= layer_views(layers@));
    (rot, ent)
}

/// The rotation types of the rotation layers, each once, in order of first appearance.
pub open spec fn rotation_types_of(layers: Seq<LayerView>) -> Seq<RotationType>
    decreases layers.len(),
{
    if layers.len() == 0 {
        Seq::empty()
    } else {
        let before = rotation_types_of(layers.drop_last());
        match layers.last() {
            LayerView::Rotation { rotation_type, .. } => if before.contains(rotation_type) {
                before
            } else {
                before.push(rotation_type)
            },
            LayerView::Entanglement { .. } => before,
        }
    }
}

fn contains_type(v: &Vec<RotationType>, t: RotationType) -> (r: bool)
    ensures
        r == v@.contains(t),
{
    let mut i: usize = 0;
    while i < v.len()
        invariant
            i <= v.len(),
            forall|j: int| 0 <= j < i ==> v@[j] != t,
        decreases v.len() - i,
    {
        if v[i] == t {
            return true;
        }
        i = i + 1;
    }
    false
}

/// Distinct rotation types of the layers, in order of first appearance
pub fn collect_rotation_types(layers: &Vec<AnsatzLayer>) -> (r: Vec<RotationType>)
    ensures
        r@ == rotation_types_of(layer_views(layers@)),
{
    let mut types: Vec<RotationType> = Vec::new();
    let mut i: usize = 0;
    while i < layers.len()
        invariant
            i <= layers.len(),
            types@ == rotation_types_of(layer_views(layers@).take(i as int)),
        decreases layers.len() - i,
    {
        proof {
            let t = layer_views(layers@).take(i + 1);
            assert(t.drop_last() =~= layer_views(layers@).take(i as int));
        }
        match &layers[i] {
            AnsatzLayer::Rotation { rotation_type, .. } => {
                if !contains_type(&types, *rotation_type) {
                    types.push(*rotation_type);
                }
            },
            AnsatzLayer::Entanglement { .. } => {},
        }
        i = i + 1;
    }
    assert(layer_views(layers@).take(layers.len() as int) =~= layer_views(layers@));
    types
}

/// The pattern of the first entanglement layer, or linear when there is none.
pub open spec fn first_pattern(layers: Seq<LayerView>) -> PatternView
    decreases layers.len(),
{
    if layers.len() == 0 {
        PatternView::Linear
    } else {
        match layers[0] {
            LayerView::Entanglement { pattern, .. } => pattern,
            LayerView::Rotation { .. } => first_pattern(layers.drop_first()),
        }
    }
}

/// Entanglement pattern of the first entanglement layer
pub fn detect_entanglement_pattern(layers: &Vec<AnsatzLayer>, num_qubits: usize) -> (r: EntanglementPattern)
    ensures
        r@ == first_pattern(layer_views(layers@)),
{
    let mut i: usize = 0;
    assert(layer_views(layers@).skip(0) =~= layer_views(layers@));
    while i < layers.len()
        invariant
            i <= layers.len(),
            first_pattern(layer_views(layers@)) == first_pattern(layer_views(layers@).skip(i as int)),
        decreases layers.len() - i,
    {
        assert(layer_views(layers@).skip(i as int)[0] == layers@[i as int]@);
        assert(layer_views(layers@).skip(i as int).drop_first() =~= layer_views(layers@).skip(i + 1));
        match &layers[i] {
            AnsatzLayer::Entanglement { pattern, .. } => {
                return pattern.duplicate();
            },
            AnsatzLayer::Rotation { .. } => {},
        }
        i = i + 1;
    }
    EntanglementPattern::Linear
}

/// The ansatz type that a list of distinct rotation types indicates.
pub open spec fn vqe_type_of(types: Seq<RotationType>) -> VQEType {
    if types.len() == 1 && types[0] == RotationType::RY {
        VQEType::RealAmplitudes
    } else if types.len() == 2 && types.contains(RotationType::RY) && types.contains(RotationType::RZ) {
        VQEType::EfficientSU2
    } else if types.len() >= 2 {
        VQEType::HardwareEfficient
    } else {
        VQEType::Unknown
    }
}

/// Classify an ansatz by its rotation types
pub fn classify_vqe_type(rotation_types: &Vec<RotationType>, entanglement: &EntanglementPattern) -> (r: VQEType)
    ensures
        r == vqe_type_of(rotation_types@),
{
    if rotation_types.len() == 1 && rotation_types[0] == RotationType::RY {
        VQEType::RealAmplitudes
    } else if rotation_types.len() == 2 && contains_type(rotation_types, RotationType::RY)
        && contains_type(rotation_types, RotationType::RZ) {
        VQEType::EfficientSU2
    } else if rotation_types.len() >= 2 {
        VQEType::HardwareEfficient
    } else {
        VQEType::Unknown
    }
}


/// A gate of a circuit, as the layer analysis sees it.
#[derive(Debug, Clone)]
pub struct GateInfo {
    /// Position in the circuit
    pub index: usize,
    pub gate_type: StandardGate,
    pub qubits: Vec<usize>,
    /// Encoded first parameter, when it is a number
    pub param: Option<u64>,
}

/// End of the run of consecutive rotations that starts at `i`.
pub open spec fn rotation_run_end(gs: Seq<GateInfo>, i: int) -> int
    decreases gs.len() - i,
{
    if 0 <= i < gs.len() && rotation_kind(gs[i].gate_type) {
        rotation_run_end(gs, i + 1)
    } else {
        i
    }
}

/// End of the run of consecutive entangling gates that starts at `i`.
pub open spec fn entangling_run_end(gs: Seq<GateInfo>, i: int) -> int
    decreases gs.len() - i,
{
    if 0 <= i < gs.len() && entangling_kind(gs[i].gate_type) {
        entangling_run_end(gs, i + 1)
    } else {
        i
    }
}

/// A run of rotations ends where the first non-rotation is, within the gates.
pub proof fn lemma_rotation_run_end(gs: Seq<GateInfo>, i: int)
    requires
        0 <= i <= gs.len(),
    ensures
        i <= rotation_run_end(gs, i) <= gs.len(),
        i < gs.len() && rotation_kind(gs[i].gate_type) ==> i < rotation_run_end(gs, i),
        forall|k: int| i <= k < rotation_run_end(gs, i) ==> rotation_kind(#[trigger] gs[k].gate_type),
        rotation_run_end(gs, i) < gs.len() ==> !rotation_kind(gs[rotation_run_end(gs, i)].gate_type),
    decreases gs.len() - i,
{
    if i < gs.len() && rotation_kind(gs[i].gate_type) {
        lemma_rotation_run_end(gs, i + 1);
    }
}

/// A run of entangling gates ends where the first other gate is, within the gates.
pub proof fn lemma_entangling_run_end(gs: Seq<GateInfo>, i: int)
    requires
        0 <= i <= gs.len(),
    ensures
        i <= entangling_run_end(gs, i) <= gs.len(),
        i < gs.len() && entangling_kind(gs[i].gate_type) ==> i < entangling_run_end(gs, i),
        forall|k: int| i <= k < entangling_run_end(gs, i) ==> entangling_kind(#[trigger] gs[k].gate_type),
        entangling_run_end(gs, i) < gs.len() ==> !entangling_kind(gs[entangling_run_end(gs, i)].gate_type),
    decreases gs.len() - i,
{
    if i < gs.len() && entangling_kind(gs[i].gate_type) {
        lemma_entangling_run_end(gs, i + 1);
    }
}

/// The rotation kinds of a block, each once, in order of first appearance.
pub open spec fn kinds_in_order(block: Seq<GateInfo>) -> Seq<StandardGate>
    decreases block.len(),
{
    if block.len() == 0 {
        Seq::empty()
    } else {
        let before = kinds_in_order(block.drop_last());
        if before.contains(block.last().gate_type) {
            before
        } else {
            before.push(block.last().gate_type)
        }
    }
}

/// The encoded parameter of a gate, 0 when it has none.
pub open spec fn param_or_zero(g: GateInfo) -> u64 {
    match g.param {
        Some(v) => v,
        None => 0,
    }
}

/// The parameters of the gates of kind `k` in a block, in order.
pub open spec fn params_of_kind(block: Seq<GateInfo>, k: StandardGate) -> Seq<u64>
    decreases block.len(),
{
    if block.len() == 0 {
        Seq::empty()
    } else if block.last().gate_type == k {
        params_of_kind(block.drop_last(), k).push(param_or_zero(block.last()))
    } else {
        params_of_kind(block.drop_last(), k)
    }
}

/// Rotation type of a rotation gate kind.
pub open spec fn rotation_of_kind(k: StandardGate) -> RotationType {
    if k == StandardGate::Ry {
        RotationType::RY
    } else if k == StandardGate::Rz {
        RotationType::RZ
    } else {
        RotationType::RX
    }
}

/// One rotation layer per rotation kind of the block, in order of first
/// appearance, holding the parameters of that kind.
pub open spec fn rotation_layers_of(block: Seq<GateInfo>) -> Seq<LayerView> {
    kinds_in_order(block).map_values(|k: StandardGate| LayerView::Rotation {
        rotation_type: rotation_of_kind(k),
        params: params_of_kind(block, k),
    })
}

/// The qubit pairs of the two-qubit gates of a block, in order.
pub open spec fn pairs_of(block: Seq<GateInfo>) -> Seq<(usize, usize)>
    decreases block.len(),
{
    if block.len() == 0 {
        Seq::empty()
    } else if block.last().qubits@.len() == 2 {
        pairs_of(block.drop_last()).push((block.last().qubits@[0], block.last().qubits@[1]))
    } else {
        pairs_of(block.drop_last())
    }
}

/// The layers of the gates from position `i` on: each run of rotations
/// gives its rotation layers, each run of entangling gates one entanglement
/// layer with the pattern its pairs form on `n` qubits, other gates nothing.
pub open spec fn layers_from(gs: Seq<GateInfo>, i: int, n: nat) -> Seq<LayerView>
    decreases gs.len() - i,
{
    if i < 0 || i >= gs.len() {
        Seq::empty()
    } else if rotation_kind(gs[i].gate_type) {
        let e = rotation_run_end(gs, i);
        proof {
            lemma_rotation_run_end(gs, i);
        }
        rotation_layers_of(gs.subrange(i, e)) + layers_from(gs, e, n)
    } else if entangling_kind(gs[i].gate_type) {
        let e = entangling_run_end(gs, i);
        proof {
            lemma_entangling_run_end(gs, i);
        }
        seq![LayerView::Entanglement {
            pattern: inferred_pattern(pairs_of(gs.subrange(i, e)), n),
            gate: gs[i].gate_type,
        }] + layers_from(gs, e, n)
    } else {
        layers_from(gs, i + 1, n)
    }
}

fn kind_index(k: StandardGate) -> (r: usize)
    requires
        rotation_kind(k),
    ensures
        r < 3,
        r == 0 <==> k == StandardGate::Rx,
        r == 1 <==> k == StandardGate::Ry,
        r == 2 <==> k == StandardGate::Rz,
{
    if k == StandardGate::Rx {
        0
    } else if k == StandardGate::Ry {
        1
    } else {
        2
    }
}

fn contains_kind(v: &Vec<StandardGate>, k: StandardGate) -> (r: bool)
    ensures
        r == v@.contains(k),
{
    let mut i: usize = 0;
    while i < v.len()
        invariant
            i <= v.len(),
            forall|j: int| 0 <= j < i ==> v@[j] != k,
        decreases v.len() - i,
    {
        if v[i] == k {
            return true;
        }
        i = i + 1;
    }
    false
}

proof fn lemma_kinds_are_rotations(block: Seq<GateInfo>)
    requires
        forall|k: int| 0 <= k < block.len() ==> rotation_kind(#[trigger] block[k].gate_type),
    ensures
        forall|j: int| 0 <= j < kinds_in_order(block).len() ==> rotation_kind(#[trigger] kinds_in_order(block)[j]),
    decreases block.len(),
{
    if block.len() > 0 {
        assert forall|k: int| 0 <= k < block.drop_last().len() implies rotation_kind(#[trigger] block.drop_last()[k].gate_type) by {
            assert(block.drop_last()[k] == block[k]);
        }
        lemma_kinds_are_rotations(block.drop_last());
        let before = kinds_in_order(block.drop_last());
        assert(rotation_kind(block[block.len() - 1].gate_type));
        assert forall|j: int| 0 <= j < kinds_in_order(block).len() implies rotation_kind(#[trigger] kinds_in_order(block)[j]) by {
            if j < before.len() {
                assert(kinds_in_order(block)[j] == before[j]);
            } else {
                assert(kinds_in_order(block)[j] == block.last().gate_type);
            }
        }
    }
}

/// The rotation layers of the block `gates[start..end]`.
fn rotation_block_layers(gates: &Vec<GateInfo>, start: usize, end: usize) -> (r: Vec<AnsatzLayer>)
    requires
        start <= end <= gates@.len(),
        forall|k: int| start <= k < end ==> rotation_kind(#[trigger] gates@[k].gate_type),
    ensures
        layer_views(r@) == rotation_layers_of(gates@.subrange(start as int, end as int)),
{
    let ghost block = gates@.subrange(start as int, end as int);
    let mut order: Vec<StandardGate> = Vec::new();
    let mut px: Vec<u64> = Vec::new();
    let mut py: Vec<u64> = Vec::new();
    let mut pz: Vec<u64> = Vec::new();
    let mut k: usize = start;
    while k < end
        invariant
            start <= k <= end,
            end <= gates@.len(),
            block == gates@.subrange(start as int, end as int),
            forall|x: int| start <= x < end ==> rotation_kind(#[trigger] gates@[x].gate_type),
            order@ == kinds_in_order(gates@.subrange(start as int, k as int)),
            px@ == params_of_kind(gates@.subrange(start as int, k as int), StandardGate::Rx),
            py@ == params_of_kind(gates@.subrange(start as int, k as int), StandardGate::Ry),
            pz@ == params_of_kind(gates@.subrange(start as int, k as int), StandardGate::Rz),
        decreases end - k,
    {
        let g = &gates[k];
        let ghost sub = gates@.subrange(start as int, k + 1);
        assert(sub.drop_last() =~= gates@.subrange(start as int, k as int));
        assert(sub.last() == gates@[k as int]);
        assert(rotation_kind(gates@[k as int].gate_type));
        if !contains_kind(&order, g.gate_type) {
            order.push(g.gate_type);
        }
        let v: u64 = match g.param {
            Some(x) => x,
            None => 0,
        };
        let which = kind_index(g.gate_type);
        if which == 0 {
            px.push(v);
        } else if which == 1 {
            py.push(v);
        } else {
            pz.push(v);
        }
        k = k + 1;
    }
    proof {
        lemma_kinds_are_rotations(block);
    }
    let mut layers: Vec<AnsatzLayer> = Vec::new();
    let mut t: usize = 0;
    while t < order.len()
        invariant
            t <= order@.len(),
            order@ == kinds_in_order(block),
            forall|j: int| 0 <= j < order@.len() ==> rotation_kind(#[trigger] order@[j]),
            px@ == params_of_kind(block, StandardGate::Rx),
            py@ == params_of_kind(block, StandardGate::Ry),
            pz@ == params_of_kind(block, StandardGate::Rz),
            layer_views(layers@) == rotation_layers_of(block).take(t as int),
        decreases order.len() - t,
    {
        let kind = order[t];
        assert(rotation_kind(order@[t as int]));
        let which = kind_index(kind);
        let (rotation_type, params) = if which == 0 {
            (RotationType::RX, copy_params(&px))
        } else if which == 1 {
            (RotationType::RY, copy_params(&py))
        } else {
            (RotationType::RZ, copy_params(&pz))
        };
        let ghost prev = layer_views(layers@);
        layers.push(AnsatzLayer::Rotation { rotation_type, params });
        proof {
            assert(rotation_layers_of(block)[t as int] == (LayerView::Rotation {
                rotation_type: rotation_of_kind(kind),
                params: params_of_kind(block, kind),
            }));
            assert(layers@.last()@ == rotation_layers_of(block)[t as int]);
            assert(layer_views(layers@) =~= prev.push(layers@.last()@));
            assert(rotation_layers_of(block).take(t + 1) =~= rotation_layers_of(block).take(t as int).push(rotation_layers_of(block)[t as int]));
        }
        t = t + 1;
    }
    assert(rotation_layers_of(block).take(order.len() as int) =~= rotation_layers_of(block));
    layers
}

fn copy_params(p: &Vec<u64>) -> (r: Vec<u64>)
    ensures
        r@ == p@,
{
    let mut r: Vec<u64> = Vec::new();
    let mut i: usize = 0;
    while i < p.len()
        invariant
            i <= p.len(),
            r@ == p@.take(i as int),
        decreases p.len() - i,
    {
        r.push(p[i]);
        assert(r@ =~= p@.take(i + 1));
        i = i + 1;
    }
    assert(p@.take(p.len() as int) =~= p@);
    r
}

/// The qubit pairs of the two-qubit gates of `gates[start..end]`.
fn block_pairs(gates: &Vec<GateInfo>, start: usize, end: usize) -> (r: Vec<(usize, usize)>)
    requires
        start <= end <= gates@.len(),
    ensures
        r@ == pairs_of(gates@.subrange(start as int, end as int)),
{
    let mut pairs: Vec<(usize, usize)> = Vec::new();
    let mut k: usize = start;
    while k < end
        invariant
            start <= k <= end,
            end <= gates@.len(),
            pairs@ == pairs_of(gates@.subrange(start as int, k as int)),
        decreases end - k,
    {
        let ghost sub = gates@.subrange(start as int, k + 1);
        assert(sub.drop_last() =~= gates@.subrange(start as int, k as int));
        assert(sub.last() == gates@[k as int]);
        if gates[k].qubits.len() == 2 {
            pairs.push((gates[k].qubits[0], gates[k].qubits[1]));
        }
        k = k + 1;
    }
    pairs
}

/// Split a gate list into layers: every run of consecutive rotations gives
/// one rotation layer per rotation kind, in order of first appearance; every
/// run of consecutive entangling gates gives one entanglement layer; other
/// gates are skipped
pub fn detect_layers(gates: &Vec<GateInfo>, num_qubits: usize) -> (r: Vec<AnsatzLayer>)
    ensures
        layer_views(r@) == layers_from(gates@, 0, num_qubits as nat),
{
    let mut layers: Vec<AnsatzLayer> = Vec::new();
    let mut i: usize = 0;
    let n = gates.len();
    assert(layer_views(layers@) =~= Seq::<LayerView>::empty());
    while i < n
        invariant
            i <= n,
            n == gates@.len(),
            layer_views(layers@) + layers_from(gates@, i as int, num_qubits as nat)
                == layers_from(gates@, 0, num_qubits as nat),
        decreases n - i,
    {
        let ghost before = layer_views(layers@);
        if is_rotation_gate(gates[i].gate_type) {
            let start = i;
            proof {
                lemma_rotation_run_end(gates@, start as int);
            }
            while i < n && is_rotation_gate(gates[i].gate_type)
                invariant
                    start <= i <= n,
                    n == gates@.len(),
                    forall|k: int| start <= k < i ==> rotation_kind(#[trigger] gates@[k].gate_type),
                    rotation_run_end(gates@, start as int) == rotation_run_end(gates@, i as int),
                decreases n - i,
            {
                i = i + 1;
            }
            let mut block = rotation_block_layers(gates, start, i);
            let ghost added = layer_views(block@);
            layers.append(&mut block);
            proof {
                assert(layer_views(layers@) =~= before + added);
                assert(before + added + layers_from(gates@, i as int, num_qubits as nat)
                    =~= before + layers_from(gates@, start as int, num_qubits as nat));
            }
        } else if is_entangling_gate(gates[i].gate_type) {
            let start = i;
            let ent_gate = gates[i].gate_type;
            proof {
                lemma_entangling_run_end(gates@, start as int);
            }
            while i < n && is_entangling_gate(gates[i].gate_type)
                invariant
                    start <= i <= n,
                    n == gates@.len(),
                    entangling_run_end(gates@, start as int) == entangling_run_end(gates@, i as int),
                decreases n - i,
            {
                i = i + 1;
            }
            let pairs = block_pairs(gates, start, i);
            let pattern = infer_entanglement_pattern(&pairs, num_qubits);
            layers.push(AnsatzLayer::Entanglement { pattern, gate: ent_gate });
            proof {
                assert(layer_views(layers@) =~= before.push(layers@.last()@));
                assert(before.push(layers@.last()@) + layers_from(gates@, i as int, num_qubits as nat)
                    =~= before + layers_from(gates@, start as int, num_qubits as nat));
            }
        } else {
            i = i + 1;
        }
    }
    assert(layer_views(layers@) + Seq::<LayerView>::empty() =~= layer_views(layers@));
    layers
}


/// The first parameter of an instruction, when it is a number.
pub open spec fn first_number(ps: Seq<Parameter>) -> Option<u64> {
    if ps.len() > 0 && ps[0] is Float {
        Some(ps[0]->Float_0)
    } else {
        None
    }
}

/// `gs` describes the instructions `ops` one by one.
pub open spec fn infos_match(gs: Seq<GateInfo>, ops: Seq<InstrView>) -> bool {
    &&& gs.len() == ops.len()
    &&& forall|i: int| 0 <= i < ops.len() ==> {
        &&& (#[trigger] gs[i]).index == i
        &&& gs[i].gate_type == ops[i].gate
        &&& gs[i].qubits@ == ops[i].qubits
        &&& gs[i].param == first_number(ops[i].params)
    }
}

/// Describe every instruction of a circuit for the layer analysis
pub fn gate_infos(circuit: &QuantumCircuit) -> (r: Vec<GateInfo>)
    ensures
        infos_match(r@, circuit@.ops),
{
    let instrs = circuit.instructions();
    let ghost ops = circuit@.ops;
    let mut r: Vec<GateInfo> = Vec::new();
    let mut i: usize = 0;
    while i < instrs.len()
        invariant
            i <= instrs.len(),
            views(instrs@) == ops,
            r@.len() == i,
            forall|j: int| 0 <= j < i ==> {
                &&& (#[trigger] r@[j]).index == j
                &&& r@[j].gate_type == ops[j].gate
                &&& r@[j].qubits@ == ops[j].qubits
                &&& r@[j].param == first_number(ops[j].params)
            },
        decreases instrs.len() - i,
    {
        let ins = &instrs[i];
        assert(ins@ == ops[i as int]);
        let param = if ins.gate.parameters.len() > 0 {
            match &ins.gate.parameters[0] {
                Parameter::Float(v) => Some(*v),
                _ => None,
            }
        } else {
            None
        };
        let qubits = ins.qubits.clone();
        assert(qubits@ =~= ins.qubits@);
        r.push(GateInfo { index: i, gate_type: ins.gate.gate_type, qubits, param });
        i = i + 1;
    }
    r
}

/// Structure of a variational ansatz found in a circuit
#[derive(Debug, Clone)]
pub struct VqeStructure {
    /// Detected VQE type
    pub vqe_type: VQEType,
    /// Number of qubits
    pub num_qubits: usize,
    /// Number of ansatz layers
    pub num_layers: usize,
    /// Rotation gate types, each once, in order of first appearance
    pub rotation_types: Vec<RotationType>,
    /// Entanglement pattern of the first entanglement layer
    pub entanglement: EntanglementPattern,
    /// The layers
    pub layers: Vec<AnsatzLayer>,
}

/// What the structure analysis finds in a gate list on `n` qubits: nothing
/// when there are no gates, no layers, no rotation layer or no entanglement
/// layer; otherwise the type, the layer count (rotation layers, but at most
/// one more than the entanglement layers), the rotation types, the first
/// entanglement pattern and the layers.
pub open spec fn vqe_structure(gs: Seq<GateInfo>, n: nat) -> Option<(VQEType, nat, Seq<RotationType>, PatternView, Seq<LayerView>)> {
    let layers = layers_from(gs, 0, n);
    let counts = layer_counts(layers);
    if gs.len() == 0 || layers.len() == 0 || counts.0 == 0 || counts.1 == 0 {
        None
    } else {
        let types = rotation_types_of(layers);
        Some((
            vqe_type_of(types),
            if counts.0 <= counts.1 + 1 { counts.0 } else { (counts.1 + 1) as nat },
            types,
            first_pattern(layers),
            layers,
        ))
    }
}

/// Find the layered structure of a variational ansatz in a gate list
pub fn analyze_gates(gates: &Vec<GateInfo>, num_qubits: usize) -> (r: Option<VqeStructure>)
    ensures
        match r {
            None => vqe_structure(gates@, num_qubits as nat) is None,
            Some(s) => {
                &&& s.num_qubits == num_qubits
                &&& vqe_structure(gates@, num_qubits as nat) == Some((
                    s.vqe_type,
                    s.num_layers as nat,
                    s.rotation_types@,
                    s.entanglement@,
                    layer_views(s.layers@),
                ))
            },
        },
{
    if gates.len() == 0 {
        return None;
    }
    let layers = detect_layers(gates, num_qubits);
    if layers.len() == 0 {
        return None;
    }
    let (rotation_layers, entangle_layers) = count_layer_types(&layers);
    if rotation_layers == 0 {
        return None;
    }
    if entangle_layers == 0 {
        return None;
    }
    let rotation_types = collect_rotation_types(&layers);
    let entanglement = detect_entanglement_pattern(&layers, num_qubits);
    let vqe_type = classify_vqe_type(&rotation_types, &entanglement);
    proof {
        lemma_layer_counts_bound(layer_views(layers@));
    }
    let num_layers = if rotation_layers <= entangle_layers + 1 { rotation_layers } else { entangle_layers + 1 };
    Some(VqeStructure { vqe_type, num_qubits, num_layers, rotation_types, entanglement, layers })
}

/// Find the layered structure of a variational ansatz in a circuit
pub fn detect_vqe_structure(circuit: &QuantumCircuit) -> (r: Option<VqeStructure>)
    ensures
        exists|gs: Seq<GateInfo>| #![auto] infos_match(gs, circuit@.ops) && match r {
            None => vqe_structure(gs, circuit@.num_qubits as nat) is None,
            Some(s) => {
                &&& s.num_qubits == circuit@.num_qubits
                &&& vqe_structure(gs, circuit@.num_qubits as nat) == Some((
                    s.vqe_type,
                    s.num_layers as nat,
                    s.rotation_types@,
                    s.entanglement@,
                    layer_views(s.layers@),
                ))
            },
        },
{
    let gates = gate_infos(circuit);
    let r = analyze_gates(&gates, circuit.num_qubits());
    assert(infos_match(gates@, circuit@.ops));
    r
}


/// The pairs `(a, b)` with `a < b < n` whose first qubit is `a`, in order.
pub open spec fn pairs_from(n: nat, a: nat) -> Seq<(usize, usize)> {
    Seq::new(if a + 1 <= n { (n - a - 1) as nat } else { 0 }, |k: int| (a as usize, (a + 1 + k) as usize))
}

/// The pairs `(a, b)` with `a < b < n` and `a` below `m`, ordered by `a`, then `b`.
pub open spec fn full_pairs_upto(n: nat, m: nat) -> Seq<(usize, usize)>
    decreases m,
{
    if m == 0 {
        Seq::empty()
    } else {
        full_pairs_upto(n, (m - 1) as nat) + pairs_from(n, (m - 1) as nat)
    }
}

/// The qubit pairs a pattern connects on `n` qubits.
pub open spec fn pattern_pairs(p: PatternView, n: nat) -> Seq<(usize, usize)> {
    match p {
        PatternView::Linear => linear_pairs(n),
        PatternView::Circular => circular_pairs(n),
        PatternView::Full => full_pairs_upto(n, n),
        PatternView::Custom(ps) => ps,
    }
}

/// The two-qubit gate a layer entangles with: CZ stays CZ, anything else becomes CX.
pub open spec fn entangler(g: StandardGate) -> StandardGate {
    if g == StandardGate::CZ {
        StandardGate::CZ
    } else {
        StandardGate::CX
    }
}

/// The instructions that rebuild one layer on `n` qubits: a rotation on each
/// of the first qubits that has a parameter, or the entangling gate on each
/// pair of the pattern.
pub open spec fn layer_ops(n: usize, l: LayerView) -> Seq<InstrView> {
    match l {
        LayerView::Rotation { rotation_type, params } => Seq::new(
            if params.len() < n { params.len() } else { n as nat },
            |i: int| op1f(rotation_gate(rotation_type), i as usize, params[i]),
        ),
        LayerView::Entanglement { pattern, gate } => pattern_pairs(pattern, n as nat).map_values(
            |p: (usize, usize)| op2(entangler(gate), p.0, p.1),
        ),
    }
}

/// The instructions that rebuild a sequence of layers, layer after layer.
pub open spec fn reconstruction_ops(n: usize, layers: Seq<LayerView>) -> Seq<InstrView>
    decreases layers.len(),
{
    if layers.len() == 0 {
        Seq::empty()
    } else {
        layer_ops(n, layers[0]) + reconstruction_ops(n, layers.drop_first())
    }
}

/// Text of the error that rejecting an instruction for fault `f` reports,
/// on a circuit of the given widths.
pub open spec fn fault_text(f: Fault, nq: usize, nc: usize) -> Seq<char> {
    match f {
        Fault::Qubit(q) => "Invalid qubit index: "@ + decimal_spec(q as nat) + " (circuit has "@
            + decimal_spec(nq as nat) + " qubits)"@,
        Fault::Clbit(c) => "Invalid classical bit index: "@ + decimal_spec(c as nat) + " (circuit has "@
            + decimal_spec(nc as nat) + " classical bits)"@,
        Fault::Repeated => "Circuit construction error: "@ + repeated_qubit_message(),
    }
}

/// An error that reports a fault has the fault's text.
proof fn lemma_reported_text(e: MyQuatError, f: Option<Fault>, nq: usize, nc: usize)
    requires
        reports(Err(e), f, nq, nc),
    ensures
        f matches Some(x) && error_text(e) == fault_text(x, nq, nc),
{
    match f {
        Some(Fault::Qubit(q)) => {},
        Some(Fault::Clbit(c)) => {},
        Some(Fault::Repeated) => {},
        None => {},
    }
}

/// The pairs a pattern connects on `n` qubits
pub fn pattern_pair_list(pattern: &EntanglementPattern, n: usize) -> (r: Vec<(usize, usize)>)
    ensures
        r@ == pattern_pairs(pattern@, n as nat),
{
    match pattern {
        EntanglementPattern::Custom(ps) => copy_pairs(ps),
        EntanglementPattern::Full => {
            let mut r: Vec<(usize, usize)> = Vec::new();
            let mut a: usize = 0;
            while a < n
                invariant
                    a <= n,
                    r@ == full_pairs_upto(n as nat, a as nat),
                decreases n - a,
            {
                let ghost base = r@;
                let mut b: usize = a + 1;
                assert(pairs_from(n as nat, a as nat).take(0) =~= Seq::<(usize, usize)>::empty());
                assert(base + pairs_from(n as nat, a as nat).take(0) =~= base);
                while b < n
                    invariant
                        a < n,
                        a + 1 <= b <= n,
                        base == full_pairs_upto(n as nat, a as nat),
                        r@ == base + pairs_from(n as nat, a as nat).take(b - a - 1),
                    decreases n - b,
                {
                    r.push((a, b));
                    assert(r@ =~= base + pairs_from(n as nat, a as nat).take(b - a));
                    b = b + 1;
                }
                assert(pairs_from(n as nat, a as nat).take(n - a - 1) =~= pairs_from(n as nat, a as nat));
                a = a + 1;
            }
            r
        },
        _ => {
            let m = n.saturating_sub(1);
            let mut r: Vec<(usize, usize)> = Vec::new();
            let mut i: usize = 0;
            while i < m
                invariant
                    i <= m,
                    m == if n == 0 { 0 } else { n - 1 },
                    r@ == linear_pairs(n as nat).take(i as int),
                decreases m - i,
            {
                r.push((i, i + 1));
                assert(r@ =~= linear_pairs(n as nat).take(i + 1));
                i = i + 1;
            }
            assert(linear_pairs(n as nat).take(m as int) =~= linear_pairs(n as nat));
            match pattern {
                EntanglementPattern::Circular => {
                    if n > 1 {
                        r.push((n - 1, 0));
                    }
                },
                _ => {},
            }
            r
        },
    }
}

/// Gate kind of a rotation type
fn rotation_kind_of(t: RotationType) -> (r: StandardGate)
    ensures
        r == rotation_gate(t),
{
    match t {
        RotationType::RY => StandardGate::Ry,
        RotationType::RZ => StandardGate::Rz,
        RotationType::RX => StandardGate::Rx,
    }
}

/// Rebuild a circuit on `num_qubits` qubits from its ansatz layers; the
/// first instruction the circuit rejects ends the rebuild with a
/// circuit-construction error carrying the rejection's text
pub fn reconstruct_vqe(num_qubits: usize, layers: &Vec<AnsatzLayer>) -> (r: Result<QuantumCircuit>)
    ensures
        match r {
            Ok(c) => {
                &&& run(CircuitView { num_qubits, num_clbits: 0, ops: Seq::empty() }, reconstruction_ops(num_qubits, layer_views(layers@))).1 is None
                &&& c@ == run(CircuitView { num_qubits, num_clbits: 0, ops: Seq::empty() }, reconstruction_ops(num_qubits, layer_views(layers@))).0
            },
            Err(e) => run(CircuitView { num_qubits, num_clbits: 0, ops: Seq::empty() }, reconstruction_ops(num_qubits, layer_views(layers@))).1 matches Some(f)
                && is_circuit_error(e, fault_text(f, num_qubits, 0)),
        },
{
    let mut circuit = QuantumCircuit::new(num_qubits, 0);
    let ghost init = circuit@;
    let ghost views_all = layer_views(layers@);
    let ghost total = reconstruction_ops(num_qubits, views_all);
    let ghost mut done: Seq<InstrView> = Seq::empty();
    let mut i: usize = 0;
    proof {
        assert(views_all.skip(0) =~= views_all);
        assert(done + total =~= total);
        assert(run(init, done) == (init, None::<Fault>));
    }
    while i < layers.len()
        invariant
            i <= layers.len(),
            init == (CircuitView { num_qubits, num_clbits: 0, ops: Seq::empty() }),
            views_all == layer_views(layers@),
            total == reconstruction_ops(num_qubits, views_all),
            total == done + reconstruction_ops(num_qubits, views_all.skip(i as int)),
            circuit@ == run(init, done).0,
            run(init, done).1 is None,
        decreases layers.len() - i,
    {
        let ghost lo = layer_ops(num_qubits, views_all[i as int]);
        let ghost tail = reconstruction_ops(num_qubits, views_all.skip(i + 1));
        proof {
            assert(views_all.skip(i as int)[0] == views_all[i as int]);
            assert(views_all.skip(i as int).drop_first() =~= views_all.skip(i + 1));
            assert(total =~= (done + lo) + tail);
        }
        match &layers[i] {
            AnsatzLayer::Rotation { rotation_type, params } => {
                let g = rotation_kind_of(*rotation_type);
                let m = if params.len() < num_qubits { params.len() } else { num_qubits };
                let mut qi: usize = 0;
                assert(done + lo.take(0) =~= done);
                while qi < m
                    invariant
                        qi <= m,
                        m <= params@.len(),
                        lo.len() == m,
                        forall|x: int| 0 <= x < m ==> #[trigger] lo[x] == op1f(g, x as usize, params@[x]),
                        circuit@ == run(init, done + lo.take(qi as int)).0,
                        run(init, done + lo.take(qi as int)).1 is None,
                        total == (done + lo) + tail,
                        total == reconstruction_ops(num_qubits, views_all),
                        views_all == layer_views(layers@),
                        init == (CircuitView { num_qubits, num_clbits: 0, ops: Seq::empty() }),
                    decreases m - qi,
                {
                    let ghost pre = done + lo.take(qi as int);
                    let ins = Instruction::rotation(g, qi, Parameter::Float(params[qi]));
                    assert(ins@ == lo[qi as int]);
                    assert(pre.push(ins@) =~= done + lo.take(qi + 1));
                    let rr = append_tracked(&mut circuit, ins, Ghost(init), Ghost(pre));
                    match rr {
                        Err(e) => {
                            proof {
                                let head = done + lo.take(qi + 1);
                                assert(total =~= head + (lo.skip(qi + 1) + tail));
                                lemma_fault_stops(init, head, lo.skip(qi + 1) + tail);
                                lemma_reported_text(e, run(init, head).1, num_qubits, 0);
                            }
                            let text = e.to_string();
                            return Err(MyQuatError::circuit_error(text.as_str()));
                        },
                        Ok(()) => {},
                    }
                    qi = qi + 1;
                }
                assert(lo.take(m as int) =~= lo);
            },
            AnsatzLayer::Entanglement { pattern, gate } => {
                let pairs = pattern_pair_list(pattern, num_qubits);
                let g = if *gate == StandardGate::CZ { StandardGate::CZ } else { StandardGate::CX };
                let mut k: usize = 0;
                assert(done + lo.take(0) =~= done);
                while k < pairs.len()
                    invariant
                        k <= pairs@.len(),
                        lo.len() == pairs@.len(),
                        forall|x: int| 0 <= x < pairs@.len() ==> #[trigger] lo[x] == op2(g, pairs@[x].0, pairs@[x].1),
                        circuit@ == run(init, done + lo.take(k as int)).0,
                        run(init, done + lo.take(k as int)).1 is None,
                        total == (done + lo) + tail,
                        total == reconstruction_ops(num_qubits, views_all),
                        views_all == layer_views(layers@),
                        init == (CircuitView { num_qubits, num_clbits: 0, ops: Seq::empty() }),
                    decreases pairs.len() - k,
                {
                    let ghost pre = done + lo.take(k as int);
                    let (c, t) = pairs[k];
                    let ins = Instruction::pair(g, c, t);
                    assert(ins@ == lo[k as int]);
                    assert(pre.push(ins@) =~= done + lo.take(k + 1));
                    let rr = append_tracked(&mut circuit, ins, Ghost(init), Ghost(pre));
                    match rr {
                        Err(e) => {
                            proof {
                                let head = done + lo.take(k + 1);
                                assert(total =~= head + (lo.skip(k + 1) + tail));
                                lemma_fault_stops(init, head, lo.skip(k + 1) + tail);
                                lemma_reported_text(e, run(init, head).1, num_qubits, 0);
                            }
                            let text = e.to_string();
                            return Err(MyQuatError::circuit_error(text.as_str()));
                        },
                        Ok(()) => {},
                    }
                    k = k + 1;
                }
                assert(lo.take(pairs.len() as int) =~= lo);
            },
        }
        proof {
            done = done + lo;
        }
        i = i + 1;
    }
    proof {
        assert(views_all.skip(i as int) =~= Seq::<LayerView>::empty());
        assert(done + Seq::<InstrView>::empty() =~= done);
    }
    Ok(circuit)
}


/// Single excitation operator for UCCSD
#[derive(Debug, Clone)]
pub struct SingleExcitation {
    /// Occupied orbital index
    pub occupied: usize,
    /// Virtual orbital index
    pub virtual_idx: usize,
    /// Encoded variational parameter value
    pub parameter: u64,
}

/// Double excitation operator for UCCSD
#[derive(Debug)]
pub struct DoubleExcitation {
    /// Occupied orbital indices
    pub occupied: (usize, usize),
    /// Virtual orbital indices
    pub virtual_idx: (usize, usize),
    /// Encoded variational parameter value
    pub parameter: u64,
}

impl Clone for DoubleExcitation {
    fn clone(&self) -> (r: Self)
        ensures
            r == *self,
    {
        DoubleExcitation {
            occupied: (self.occupied.0, self.occupied.1),
            virtual_idx: (self.virtual_idx.0, self.virtual_idx.1),
            parameter: self.parameter,
        }
    }
}

/// UCCSD Ansatz template
#[derive(Debug, Clone)]
pub struct UCCSDTemplate {
    /// Number of qubits (spin-orbitals)
    pub num_qubits: usize,
    /// Number of electrons
    pub num_electrons: usize,
    /// Single excitation operators
    pub single_excitations: Vec<SingleExcitation>,
    /// Double excitation operators
    pub double_excitations: Vec<DoubleExcitation>,
}

/// The pairs `(a, b)` with `lo <= a < b < hi` and `a` below `m`, ordered by `a`, then `b`.
pub open spec fn pairs_between(lo: nat, hi: nat, m: nat) -> Seq<(usize, usize)>
    decreases m,
{
    if m <= lo {
        Seq::empty()
    } else {
        pairs_between(lo, hi, (m - 1) as nat) + pairs_from(hi, (m - 1) as nat)
    }
}

/// Single excitations (occupied, virtual) for `ne` electrons in `nq`
/// orbitals, by occupied orbital below `m`, then virtual orbital.
pub open spec fn singles_upto(ne: nat, nq: nat, m: nat) -> Seq<(usize, usize)>
    decreases m,
{
    if m == 0 {
        Seq::empty()
    } else {
        singles_upto(ne, nq, (m - 1) as nat) + Seq::new(
            if ne <= nq { (nq - ne) as nat } else { 0 },
            |k: int| ((m - 1) as usize, (ne + k) as usize),
        )
    }
}

/// Double excitations: every occupied pair of `occ` with every virtual pair of `virt`.
pub open spec fn doubles_of(occ: Seq<(usize, usize)>, virt: Seq<(usize, usize)>) -> Seq<(usize, usize, usize, usize)>
    decreases occ.len(),
{
    if occ.len() == 0 {
        Seq::empty()
    } else {
        let p = occ.last();
        doubles_of(occ.drop_last(), virt) + virt.map_values(|q: (usize, usize)| (p.0, p.1, q.0, q.1))
    }
}

/// The pairs `(a, b)` with `lo <= a < b < hi`, ordered by `a`, then `b`
fn pairs_in(lo: usize, hi: usize) -> (r: Vec<(usize, usize)>)
    ensures
        r@ == pairs_between(lo as nat, hi as nat, hi as nat),
{
    let mut r: Vec<(usize, usize)> = Vec::new();
    if hi <= lo {
        return r;
    }
    let mut a: usize = lo;
    while a < hi
        invariant
            lo <= a <= hi,
            r@ == pairs_between(lo as nat, hi as nat, a as nat),
        decreases hi - a,
    {
        let ghost base = r@;
        let mut b: usize = a + 1;
        assert(base + pairs_from(hi as nat, a as nat).take(0) =~= base);
        while b < hi
            invariant
                a < hi,
                a + 1 <= b <= hi,
                base == pairs_between(lo as nat, hi as nat, a as nat),
                r@ == base + pairs_from(hi as nat, a as nat).take(b - a - 1),
            decreases hi - b,
        {
            r.push((a, b));
            assert(r@ =~= base + pairs_from(hi as nat, a as nat).take(b - a));
            b = b + 1;
        }
        assert(pairs_from(hi as nat, a as nat).take(hi - a - 1) =~= pairs_from(hi as nat, a as nat));
        a = a + 1;
    }
    r
}

impl UCCSDTemplate {
    /// Create a minimal UCCSD template: every single excitation from an
    /// occupied to a virtual orbital and every double excitation from an
    /// occupied pair to a virtual pair, all with parameter 0
    pub fn new(num_qubits: usize, num_electrons: usize) -> (r: Self)
        ensures
            r.num_qubits == num_qubits,
            r.num_electrons == num_electrons,
            r.single_excitations@.map_values(|s: SingleExcitation| (s.occupied, s.virtual_idx))
                == singles_upto(num_electrons as nat, num_qubits as nat, num_electrons as nat),
            r.double_excitations@.map_values(|d: DoubleExcitation| (d.occupied.0, d.occupied.1, d.virtual_idx.0, d.virtual_idx.1))
                == doubles_of(
                    pairs_between(0, num_electrons as nat, num_electrons as nat),
                    pairs_between(num_electrons as nat, num_qubits as nat, num_qubits as nat),
                ),
            forall|i: int| 0 <= i < r.single_excitations@.len() ==> (#[trigger] r.single_excitations@[i]).parameter == 0,
            forall|i: int| 0 <= i < r.double_excitations@.len() ==> (#[trigger] r.double_excitations@[i]).parameter == 0,
    {
        let ne = num_electrons;
        let nq = num_qubits;
        let mut singles: Vec<SingleExcitation> = Vec::new();
        let mut occ: usize = 0;
        while occ < ne
            invariant
                occ <= ne,
                singles@.map_values(|s: SingleExcitation| (s.occupied, s.virtual_idx)) == singles_upto(ne as nat, nq as nat, occ as nat),
                forall|i: int| 0 <= i < singles@.len() ==> (#[trigger] singles@[i]).parameter == 0,
            decreases ne - occ,
        {
            let ghost base = singles@.map_values(|s: SingleExcitation| (s.occupied, s.virtual_idx));
            let ghost row = Seq::new(if ne <= nq { (nq - ne) as nat } else { 0 }, |k: int| (occ as usize, (ne + k) as usize));
            let mut v: usize = ne;
            assert(base + row.take(0) =~= base);
            while ne <= v && v < nq
                invariant
                    occ < ne,
                    ne <= v,
                    v <= nq || v == ne,
                    row == Seq::new(if ne <= nq { (nq - ne) as nat } else { 0 }, |k: int| (occ as usize, (ne + k) as usize)),
                    singles@.map_values(|s: SingleExcitation| (s.occupied, s.virtual_idx)) == base + row.take(v - ne),
                    forall|i: int| 0 <= i < singles@.len() ==> (#[trigger] singles@[i]).parameter == 0,
                decreases nq - v,
            {
                let ghost prev = singles@;
                singles.push(SingleExcitation { occupied: occ, virtual_idx: v, parameter: 0 });
                assert(singles@.map_values(|s: SingleExcitation| (s.occupied, s.virtual_idx))
                    =~= prev.map_values(|s: SingleExcitation| (s.occupied, s.virtual_idx)).push((occ, v)));
                assert(row[v - ne] == (occ, v));
                assert(row.take(v - ne + 1) =~= row.take(v - ne).push(row[v - ne]));
                assert(singles@.map_values(|s: SingleExcitation| (s.occupied, s.virtual_idx)) =~= base + row.take(v - ne + 1));
                v = v + 1;
            }
            proof {
                if ne <= nq {
                    assert(row.take(nq - ne) =~= row);
                } else {
                    assert(row.take(0) =~= row);
                }
            }
            occ = occ + 1;
        }
        let occ_pairs = pairs_in(0, ne);
        let virt_pairs = pairs_in(ne, nq);
        let mut doubles: Vec<DoubleExcitation> = Vec::new();
        let mut p: usize = 0;
        while p < occ_pairs.len()
            invariant
                p <= occ_pairs@.len(),
                doubles@.map_values(|d: DoubleExcitation| (d.occupied.0, d.occupied.1, d.virtual_idx.0, d.virtual_idx.1))
                    == doubles_of(occ_pairs@.take(p as int), virt_pairs@),
                forall|i: int| 0 <= i < doubles@.len() ==> (#[trigger] doubles@[i]).parameter == 0,
            decreases occ_pairs.len() - p,
        {
            let ghost base = doubles@.map_values(|d: DoubleExcitation| (d.occupied.0, d.occupied.1, d.virtual_idx.0, d.virtual_idx.1));
            let (i, j) = occ_pairs[p];
            let ghost block = virt_pairs@.map_values(|q: (usize, usize)| (i, j, q.0, q.1));
            let mut q: usize = 0;
            assert(base + block.take(0) =~= base);
            while q < virt_pairs.len()
                invariant
                    q <= virt_pairs@.len(),
                    block == virt_pairs@.map_values(|q: (usize, usize)| (i, j, q.0, q.1)),
                    doubles@.map_values(|d: DoubleExcitation| (d.occupied.0, d.occupied.1, d.virtual_idx.0, d.virtual_idx.1))
                        == base + block.take(q as int),
                    forall|x: int| 0 <= x < doubles@.len() ==> (#[trigger] doubles@[x]).parameter == 0,
                decreases virt_pairs.len() - q,
            {
                let (a, b) = virt_pairs[q];
                let ghost prev = doubles@;
                doubles.push(DoubleExcitation { occupied: (i, j), virtual_idx: (a, b), parameter: 0 });
                assert(doubles@.map_values(|d: DoubleExcitation| (d.occupied.0, d.occupied.1, d.virtual_idx.0, d.virtual_idx.1))
                    =~= prev.map_values(|d: DoubleExcitation| (d.occupied.0, d.occupied.1, d.virtual_idx.0, d.virtual_idx.1)).push((i, j, a, b)));
                assert(block[q as int] == (i, j, a, b));
                assert(block.take(q + 1) =~= block.take(q as int).push(block[q as int]));
                assert(doubles@.map_values(|d: DoubleExcitation| (d.occupied.0, d.occupied.1, d.virtual_idx.0, d.virtual_idx.1))
                    =~= base + block.take(q + 1));
                q = q + 1;
            }
            proof {
                assert(block.take(virt_pairs.len() as int) =~= block);
                let t = occ_pairs@.take(p + 1);
                assert(t.drop_last() =~= occ_pairs@.take(p as int));
                assert(t.last() == (i, j));
            }
            p = p + 1;
        }
        assert(occ_pairs@.take(occ_pairs.len() as int) =~= occ_pairs@);
        UCCSDTemplate { num_qubits, num_electrons, single_excitations: singles, double_excitations: doubles }
    }
}


/// The built-in template library: RealAmplitudes for 2 to 8 qubits with 1
/// to 5 layers, then EfficientSU2 for the same sizes; within each family by
/// qubit count, then layer count.
pub open spec fn default_template_at(i: int) -> (bool, nat, nat) {
    let su2 = i >= 35;
    let j = if su2 { i - 35 } else { i };
    (su2, (2 + j / 5) as nat, (1 + j % 5) as nat)
}

/// The template `t` is the `su2` family's template with `nq` qubits and `nl` layers.
pub open spec fn is_template(t: HEATemplate, su2: bool, nq: nat, nl: nat) -> bool {
    &&& t.num_qubits == nq
    &&& t.num_layers == nl
    &&& t.rotation_gates@ == if su2 { seq![RotationType::RY, RotationType::RZ] } else { seq![RotationType::RY] }
    &&& t.entanglement@ == PatternView::Linear
    &&& t.entangling_gate == StandardGate::CX
}

/// Commonly used templates: RealAmplitudes and EfficientSU2 for 2 to 8
/// qubits and 1 to 5 layers
pub fn default_hea_templates() -> (r: Vec<HEATemplate>)
    ensures
        r@.len() == 70,
        forall|i: int| 0 <= i < 70 ==> is_template(#[trigger] r@[i], default_template_at(i).0,
            default_template_at(i).1, default_template_at(i).2),
{
    let mut templates: Vec<HEATemplate> = Vec::new();
    let mut family: usize = 0;
    while family < 2
        invariant
            family <= 2,
            templates@.len() == 35 * family,
            forall|i: int| 0 <= i < templates@.len() ==> is_template(#[trigger] templates@[i],
                default_template_at(i).0, default_template_at(i).1, default_template_at(i).2),
        decreases 2 - family,
    {
        let mut nq: usize = 2;
        while nq <= 8
            invariant
                family < 2,
                2 <= nq <= 9,
                templates@.len() == 35 * family + 5 * (nq - 2),
                forall|i: int| 0 <= i < templates@.len() ==> is_template(#[trigger] templates@[i],
                    default_template_at(i).0, default_template_at(i).1, default_template_at(i).2),
            decreases 9 - nq,
        {
            let mut nl: usize = 1;
            while nl <= 5
                invariant
                    family < 2,
                    2 <= nq <= 8,
                    1 <= nl <= 6,
                    templates@.len() == 35 * family + 5 * (nq - 2) + (nl - 1),
                    forall|i: int| 0 <= i < templates@.len() ==> is_template(#[trigger] templates@[i],
                        default_template_at(i).0, default_template_at(i).1, default_template_at(i).2),
                decreases 6 - nl,
            {
                let t = if family == 0 {
                    HEATemplate::real_amplitudes(nq, nl)
                } else {
                    HEATemplate::efficient_su2(nq, nl)
                };
                let ghost i = templates@.len() as int;
                proof {
                    let j = 5 * (nq - 2) + (nl - 1);
                    assert(j / 5 == nq - 2 && j % 5 == nl - 1);
                    assert(default_template_at(i) == (family == 1, nq as nat, nl as nat));
                }
                templates.push(t);
                nl = nl + 1;
            }
            nq = nq + 1;
        }
        family = family + 1;
    }
    templates
}

} // verus!
