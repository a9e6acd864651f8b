use vstd::prelude::*;
use crate::context::{
    DrawError, InputSlotError, OutputSlotError, RenderGraphContext, RunSubGraphError,
    find_sub_graph, sub_graph_check,
};
use crate::edge::{Edge, RenderGraphError, SlotInfo, is_input_slot_edge, is_output_slot_edge};
use crate::label::{InternedRenderLabel, InternedRenderSubGraph};

verus! {

/// The index of the first edge of `edges` that is a slot edge into input
/// slot `index`, if there is one.
pub open spec fn first_input_slot_edge(edges: Seq<Edge>, index: usize) -> Option<int> {
    if exists|j: int| 0 <= j < edges.len() && is_input_slot_edge(#[trigger] edges[j], index) {
        Some(choose|j: int|
            0 <= j < edges.len() && is_input_slot_edge(edges[j], index) && forall|k: int|
                0 <= k < j ==> !is_input_slot_edge(#[trigger] edges[k], index))
    } else {
        None
    }
}

/// The index of the first edge of `edges` that is a slot edge out of output
/// slot `index`, if there is one.
pub open spec fn first_output_slot_edge(edges: Seq<Edge>, index: usize) -> Option<int> {
    if exists|j: int| 0 <= j < edges.len() && is_output_slot_edge(#[trigger] edges[j], index) {
        Some(choose|j: int|
            0 <= j < edges.len() && is_output_slot_edge(edges[j], index) && forall|k: int|
                0 <= k < j ==> !is_output_slot_edge(#[trigger] edges[k], index))
    } else {
        None
    }
}

/// Whether some edge of `edges` is a slot edge into input slot `index`.
pub open spec fn has_input_slot_edge(edges: Seq<Edge>, index: usize) -> bool {
    exists|j: int| 0 <= j < edges.len() && is_input_slot_edge(#[trigger] edges[j], index)
}

/// Whether some edge of `edges` is a slot edge out of output slot `index`.
pub open spec fn has_output_slot_edge(edges: Seq<Edge>, index: usize) -> bool {
    exists|j: int| 0 <= j < edges.len() && is_output_slot_edge(#[trigger] edges[j], index)
}

/// The label of a node with the edges going into it and out of it.
pub struct EdgesView {
    pub label: InternedRenderLabel,
    pub inputs: Seq<Edge>,
    pub outputs: Seq<Edge>,
}

/// The input and output edges of one node of a render graph.
#[derive(Debug)]
pub struct Edges {
    label: InternedRenderLabel,
    input_edges: Vec<Edge>,
    output_edges: Vec<Edge>,
}

impl View for Edges {
    type V = EdgesView;

    closed spec fn view(&self) -> EdgesView {
        EdgesView { label: self.label, inputs: self.input_edges@, outputs: self.output_edges@ }
    }
}

/// Whether `edges` lists no edge twice.
pub open spec fn no_duplicates(edges: Seq<Edge>) -> bool {
    forall|i: int, j: int|
        0 <= i < edges.len() && 0 <= j < edges.len() && i != j ==> edges[i] != edges[j]
}

impl Edges {
    /// Whether no edge is listed twice in either direction.
    pub open spec fn wf(&self) -> bool {
        no_duplicates(self@.inputs) && no_duplicates(self@.outputs)
    }

    /// The edges of a node that has none yet.
    pub fn new(label: InternedRenderLabel) -> (r: Self)
        ensures
            r.wf(),
            r@.label == label,
            r@.inputs == Seq::<Edge>::empty(),
            r@.outputs == Seq::<Edge>::empty(),
    {
        Edges { label, input_edges: Vec::new(), output_edges: Vec::new() }
    }

    /// All edges going into this node.
    pub fn input_edges(&self) -> (r: &[Edge])
        ensures
            r@ == self@.inputs,
    {
        self.input_edges.as_slice()
    }

    /// All edges going out of this node.
    pub fn output_edges(&self) -> (r: &[Edge])
        ensures
            r@ == self@.outputs,
    {
        self.output_edges.as_slice()
    }

    /// This node's label.
    pub fn label(&self) -> (r: InternedRenderLabel)
        ensures
            r == self@.label,
    {
        self.label
    }

    /// Whether `edge` is among the input edges.
    pub fn has_input_edge(&self, edge: &Edge) -> (r: bool)
        ensures
            r == self@.inputs.contains(*edge),
    {
        let mut i: usize = 0;
        while i < self.input_edges.len()
            invariant
                i <= self.input_edges@.len(),
                forall|k: int| 0 <= k < i ==> self.input_edges@[k] != *edge,
            decreases self.input_edges@.len() - i,
        {
            if self.input_edges[i] == *edge {
                return true;
            }
            i += 1;
        }
        false
    }

    /// Whether `edge` is among the output edges.
    pub fn has_output_edge(&self, edge: &Edge) -> (r: bool)
        ensures
            r == self@.outputs.contains(*edge),
    {
        let mut i: usize = 0;
        while i < self.output_edges.len()
            invariant
                i <= self.output_edges@.len(),
                forall|k: int| 0 <= k < i ==> self.output_edges@[k] != *edge,
            decreases self.output_edges@.len() - i,
        {
            if self.output_edges[i] == *edge {
                return true;
            }
            i += 1;
        }
        false
    }

    /// Adds `edge` to the input edges unless it is there already.
    pub fn add_input_edge(&mut self, edge: Edge) -> (r: Result<(), RenderGraphError>)
        ensures
            old(self).wf() ==> final(self).wf(),
            final(self)@.label == old(self)@.label,
            final(self)@.outputs == old(self)@.outputs,
            old(self)@.inputs.contains(edge) ==> r == Err::<(), RenderGraphError>(
                RenderGraphError::EdgeAlreadyExists(edge),
            ) && final(self)@.inputs == old(self)@.inputs,
            !old(self)@.inputs.contains(edge) ==> r is Ok && final(self)@.inputs == old(
                self,
            )@.inputs.push(edge),
    {
        if self.has_input_edge(&edge) {
            return Err(RenderGraphError::EdgeAlreadyExists(edge));
        }
        self.input_edges.push(edge);
        proof {
            lemma_push_new_keeps_no_duplicates(old(self)@.inputs, edge);
        }
        Ok(())
    }

    /// Adds `edge` to the output edges unless it is there already.
    pub fn add_output_edge(&mut self, edge: Edge) -> (r: Result<(), RenderGraphError>)
        ensures
            old(self).wf() ==> final(self).wf(),
            final(self)@.label == old(self)@.label,
            final(self)@.inputs == old(self)@.inputs,
            old(self)@.outputs.contains(edge) ==> r == Err::<(), RenderGraphError>(
                RenderGraphError::EdgeAlreadyExists(edge),
            ) && final(self)@.outputs == old(self)@.outputs,
            !old(self)@.outputs.contains(edge) ==> r is Ok && final(self)@.outputs == old(
                self,
            )@.outputs.push(edge),
    {
        if self.has_output_edge(&edge) {
            return Err(RenderGraphError::EdgeAlreadyExists(edge));
        }
        self.output_edges.push(edge);
        proof {
            lemma_push_new_keeps_no_duplicates(old(self)@.outputs, edge);
        }
        Ok(())
    }

    /// Removes `edge` from the input edges if it is there; the order of the
    /// remaining edges may change.
    pub fn remove_input_edge(&mut self, edge: Edge) -> (r: Result<(), RenderGraphError>)
        ensures
            old(self).wf() ==> final(self).wf(),
            final(self)@.label == old(self)@.label,
            final(self)@.outputs == old(self)@.outputs,
            !old(self)@.inputs.contains(edge) ==> r == Err::<(), RenderGraphError>(
                RenderGraphError::EdgeDoesNotExist(edge),
            ) && final(self)@.inputs == old(self)@.inputs,
            old(self)@.inputs.contains(edge) ==> r is Ok && removed_one(
                old(self)@.inputs,
                final(self)@.inputs,
                edge,
            ),
    {
        match position_of(&self.input_edges, &edge) {
            Some(index) => {
                let ghost before = self.input_edges@;
                self.input_edges.swap_remove(index);
                proof {
                    lemma_swap_remove_removes_one(before, index as int, edge);
                }
                Ok(())
            },
            None => Err(RenderGraphError::EdgeDoesNotExist(edge)),
        }
    }

    /// Removes `edge` from the output edges if it is there; the order of the
    /// remaining edges may change.
    pub fn remove_output_edge(&mut self, edge: Edge) -> (r: Result<(), RenderGraphError>)
        ensures
            old(self).wf() ==> final(self).wf(),
            final(self)@.label == old(self)@.label,
            final(self)@.inputs == old(self)@.inputs,
            !old(self)@.outputs.contains(edge) ==> r == Err::<(), RenderGraphError>(
                RenderGraphError::EdgeDoesNotExist(edge),
            ) && final(self)@.outputs == old(self)@.outputs,
            old(self)@.outputs.contains(edge) ==> r is Ok && removed_one(
                old(self)@.outputs,
                final(self)@.outputs,
                edge,
            ),
    {
        match position_of(&self.output_edges, &edge) {
            Some(index) => {
                let ghost before = self.output_edges@;
                self.output_edges.swap_remove(index);
                proof {
                    lemma_swap_remove_removes_one(before, index as int, edge);
                }
                Ok(())
            },
            None => Err(RenderGraphError::EdgeDoesNotExist(edge)),
        }
    }

    /// The first input edge that is a slot edge into input slot `index`.
    pub fn get_input_slot_edge(&self, index: usize) -> (r: Result<&Edge, RenderGraphError>)
        ensures
            match first_input_slot_edge(self@.inputs, index) {
                Some(j) => r == Ok::<&Edge, RenderGraphError>(&self@.inputs[j]),
                None => r == Err::<&Edge, RenderGraphError>(
                    RenderGraphError::UnconnectedNodeInputSlot { input_slot: index, node: self@.label },
                ),
            },
            r is Ok <==> has_input_slot_edge(self@.inputs, index),
    {
        let mut i: usize = 0;
        while i < self.input_edges.len()
            invariant
                i <= self.input_edges@.len(),
                forall|k: int| 0 <= k < i ==> !is_input_slot_edge(#[trigger] self.input_edges@[k], index),
            decreases self.input_edges@.len() - i,
        {
            let found = match &self.input_edges[i] {
                Edge::SlotEdge { input_index, .. } => *input_index == index,
                Edge::NodeEdge { .. } => false,
            };
            if found {
                proof {
                    let edges = self.input_edges@;
                    let j = first_input_slot_edge(edges, index)->Some_0;
                    assert(is_input_slot_edge(edges[i as int], index));
                    if j < i {
                    } else if i < j {
                        assert(!is_input_slot_edge(edges[i as int], index));
                    }
                }
                return Ok(&self.input_edges[i]);
            }
            i += 1;
        }
        Err(RenderGraphError::UnconnectedNodeInputSlot { input_slot: index, node: self.label })
    }

    /// The first output edge that is a slot edge out of output slot `index`.
    pub fn get_output_slot_edge(&self, index: usize) -> (r: Result<&Edge, RenderGraphError>)
        ensures
            match first_output_slot_edge(self@.outputs, index) {
                Some(j) => r == Ok::<&Edge, RenderGraphError>(&self@.outputs[j]),
                None => r == Err::<&Edge, RenderGraphError>(
                    RenderGraphError::UnconnectedNodeOutputSlot { output_slot: index, node: self@.label },
                ),
            },
            r is Ok <==> has_output_slot_edge(self@.outputs, index),
    {
        let mut i: usize = 0;
        while i < self.output_edges.len()
            invariant
                i <= self.output_edges@.len(),
                forall|k: int| 0 <= k < i ==> !is_output_slot_edge(#[trigger] self.output_edges@[k], index),
            decreases self.output_edges@.len() - i,
        {
            let found = match &self.output_edges[i] {
                Edge::SlotEdge { output_index, .. } => *output_index == index,
                Edge::NodeEdge { .. } => false,
            };
            if found {
                proof {
                    let edges = self.output_edges@;
                    let j = first_output_slot_edge(edges, index)->Some_0;
                    assert(is_output_slot_edge(edges[i as int], index));
                    if j < i {
                    } else if i < j {
                        assert(!is_output_slot_edge(edges[i as int], index));
                    }
                }
                return Ok(&self.output_edges[i]);
            }
            i += 1;
        }
        Err(RenderGraphError::UnconnectedNodeOutputSlot { output_slot: index, node: self.label })
    }
}

/// `after` is `before` with one occurrence of `e` taken out: one edge fewer,
/// every other edge kept, and `e` gone where `before` listed no edge twice.
pub open spec fn removed_one(before: Seq<Edge>, after: Seq<Edge>, e: Edge) -> bool {
    &&& after.len() + 1 == before.len()
    &&& forall|x: Edge| x != e ==> (after.contains(x) <==> before.contains(x))
    &&& no_duplicates(before) ==> no_duplicates(after) && !after.contains(e)
}

proof fn lemma_push_new_keeps_no_duplicates(edges: Seq<Edge>, e: Edge)
    requires
        !edges.contains(e),
    ensures
        no_duplicates(edges) ==> no_duplicates(edges.push(e)),
{
    let pushed = edges.push(e);
    if no_duplicates(edges) {
        assert forall|i: int, j: int|
            0 <= i < pushed.len() && 0 <= j < pushed.len() && i != j implies pushed[i] != pushed[j] by {
            if i == edges.len() {
                assert(edges[j] == pushed[j]);
            } else if j == edges.len() {
                assert(edges[i] == pushed[i]);
            }
        }
    }
}

/// Once an edge has been added, it is among the edges, so adding it a
/// second time fails with `EdgeAlreadyExists`.
pub proof fn lemma_added_edge_is_present(before: Seq<Edge>, edge: Edge)
    ensures
        before.push(edge).contains(edge),
{
    assert(before.push(edge)[before.len() as int] == edge);
}

/// Once an edge has been removed from edges that listed none twice, it is
/// no longer among them and none is listed twice, so adding it again
/// succeeds and a second removal fails with `EdgeDoesNotExist`.
pub proof fn lemma_removed_edge_is_absent(before: Seq<Edge>, after: Seq<Edge>, edge: Edge)
    requires
        no_duplicates(before),
        removed_one(before, after, edge),
    ensures
        !after.contains(edge),
        no_duplicates(after),
{
}

/// Input slots that passed validation each have a slot edge, so looking up
/// the slot edge of any of them succeeds.
pub proof fn lemma_validated_input_slot_is_connected(edges: Seq<Edge>, n: nat, index: usize)
    requires
        inputs_connected(edges, n),
        index < n,
    ensures
        has_input_slot_edge(edges, index),
        first_input_slot_edge(edges, index) is Some,
{
    assert(has_input_slot_edge(edges, index));
    let j = choose|j: int| 0 <= j < edges.len() && is_input_slot_edge(#[trigger] edges[j], index);
    assert(is_input_slot_edge(edges[j], index));
}

/// Output slots that passed validation each have a slot edge, so looking up
/// the slot edge of any of them succeeds.
pub proof fn lemma_validated_output_slot_is_connected(edges: Seq<Edge>, n: nat, index: usize)
    requires
        outputs_connected(edges, n),
        index < n,
    ensures
        has_output_slot_edge(edges, index),
        first_output_slot_edge(edges, index) is Some,
{
    assert(has_output_slot_edge(edges, index));
    let j = choose|j: int| 0 <= j < edges.len() && is_output_slot_edge(#[trigger] edges[j], index);
    assert(is_output_slot_edge(edges[j], index));
}

/// The first position of `edge` in `edges`.
fn position_of(edges: &Vec<Edge>, edge: &Edge) -> (r: Option<usize>)
    ensures
        match r {
            Some(i) => i < edges@.len() && edges@[i as int] == *edge,
            None => !edges@.contains(*edge),
        },
{
    let mut i: usize = 0;
    while i < edges.len()
        invariant
            i <= edges@.len(),
            forall|k: int| 0 <= k < i ==> edges@[k] != *edge,
        decreases edges@.len() - i,
    {
        if edges[i] == *edge {
            return Some(i);
        }
        i += 1;
    }
    None
}

proof fn lemma_swap_remove_removes_one(before: Seq<Edge>, p: int, e: Edge)
    requires
        0 <= p < before.len(),
        before[p] == e,
    ensures
        removed_one(before, before.update(p, before.last()).drop_last(), e),
{
    let after = before.update(p, before.last()).drop_last();
    let n = before.len() - 1;
    assert forall|x: Edge| x != e implies (after.contains(x) <==> before.contains(x)) by {
        if before.contains(x) {
            let k = choose|k: int| 0 <= k < before.len() && before[k] == x;
            if k == n {
                assert(after[p] == x);
            } else {
                assert(after[k] == x);
            }
        }
        if after.contains(x) {
            let k = choose|k: int| 0 <= k < after.len() && after[k] == x;
            if k == p {
                assert(before[n] == x);
            } else {
                assert(before[k] == x);
            }
        }
    }
    if no_duplicates(before) {
        assert forall|i: int, j: int|
            0 <= i < after.len() && 0 <= j < after.len() && i != j implies after[i] != after[j] by {
            let bi = if i == p { n } else { i };
            let bj = if j == p { n } else { j };
            assert(after[i] == before[bi]);
            assert(after[j] == before[bj]);
        }
        if after.contains(e) {
            let k = choose|k: int| 0 <= k < after.len() && after[k] == e;
            let bk = if k == p { n } else { k };
            assert(before[bk] == e);
        }
    }
}

/// Whether input slots `0..n` each have a slot edge among `edges`.
pub open spec fn inputs_connected(edges: Seq<Edge>, n: nat) -> bool {
    forall|i: usize| i < n ==> has_input_slot_edge(edges, i)
}

/// Whether output slots `0..n` each have a slot edge among `edges`.
pub open spec fn outputs_connected(edges: Seq<Edge>, n: nat) -> bool {
    forall|i: usize| i < n ==> has_output_slot_edge(edges, i)
}

/// The error of running a node.
#[derive(Clone, Copy, Debug, PartialEq, Eq, Structural)]
pub enum NodeRunError {
    InputSlotError(InputSlotError),
    OutputSlotError(OutputSlotError),
    RunSubGraphError(RunSubGraphError),
    DrawError(DrawError),
}

/// A unit of GPU work in a render graph.
///
/// `input` and `output` declare the node's slots; they are read once, when
/// the node is added, and must not change afterwards. Each frame the graph
/// calls `update` once and then `run`.
pub trait Node {
    /// The input slots this node declares: none, unless the node says
    /// otherwise, together with `input`.
    open spec fn declared_inputs(&self) -> Seq<SlotInfo> {
        Seq::empty()
    }

    /// The output slots this node declares: none, unless the node says
    /// otherwise, together with `output`.
    open spec fn declared_outputs(&self) -> Seq<SlotInfo> {
        Seq::empty()
    }

    /// The input slots this node needs.
    fn input(&self) -> (r: Vec<SlotInfo>)
        ensures
            r@ == self.declared_inputs(),
    ;

    /// The output slots this node produces.
    fn output(&self) -> (r: Vec<SlotInfo>)
        ensures
            r@ == self.declared_outputs(),
    ;

    /// Refreshes the node's own state before it runs this frame.
    fn update(&mut self);

    /// Does the node's work, reading inputs from and writing outputs to
    /// `graph`, and asking for sub-graphs to run.
    fn run(&self, graph: &mut RenderGraphContext) -> (r: Result<(), NodeRunError>)
        requires
            old(graph).wf(),
        ensures
            final(graph).wf(),
    ;
}

/// Relies on `<dyn core::any::Any>::downcast_ref`: the value itself when it
/// is a `T`.
#[verifier::external_body]
fn downcast_ref<N: 'static, T: 'static>(node: &N) -> Option<&T> {
    (node as &dyn core::any::Any).downcast_ref::<T>()
}

/// Relies on `<dyn core::any::Any>::downcast_mut`: the value itself when it
/// is a `T`; `None`, with the value untouched, when it is not.
#[verifier::external_body]
fn downcast_mut<N: 'static, T: 'static>(node: &mut N) -> (r: Option<&mut T>)
    ensures
        r is None ==> *final(node) == *old(node),
{
    (node as &mut dyn core::any::Any).downcast_mut::<T>()
}

/// What a render graph keeps of one node: its label, the slots it declared
/// when it was added, its edges, and the node itself.
pub struct NodeState<N> {
    pub label: InternedRenderLabel,
    pub node: N,
    pub input_slots: Vec<SlotInfo>,
    pub output_slots: Vec<SlotInfo>,
    pub edges: Edges,
}

impl<N: Node + 'static> NodeState<N> {
    /// Whether the edges carry the node's own label.
    pub open spec fn wf(&self) -> bool {
        self.edges@.label == self.label
    }

    /// The record of `node` under `label`, with the slots that `node`
    /// declares and no edges.
    pub fn new(label: InternedRenderLabel, node: N) -> (r: Self)
        ensures
            r.wf(),
            r.label == label,
            r.node == node,
            r.input_slots@ == node.declared_inputs(),
            r.output_slots@ == node.declared_outputs(),
            r.edges@.label == label,
            r.edges@.inputs.len() == 0,
            r.edges@.outputs.len() == 0,
    {
        let input_slots = node.input();
        let output_slots = node.output();
        NodeState {
            label,
            input_slots,
            output_slots,
            node,
            edges: Edges::new(label),
        }
    }

    /// The node, when it is a `T`.
    pub fn node<T: Node + 'static>(&self) -> (r: Result<&T, RenderGraphError>)
        ensures
            r is Err ==> r == Err::<&T, RenderGraphError>(RenderGraphError::WrongNodeType),
    {
        match downcast_ref::<N, T>(&self.node) {
            Some(n) => Ok(n),
            None => Err(RenderGraphError::WrongNodeType),
        }
    }

    /// The node, to change it, when it is a `T`.
    pub fn node_mut<T: Node + 'static>(&mut self) -> (r: Result<&mut T, RenderGraphError>)
        ensures
            final(self).label == old(self).label,
            final(self).input_slots == old(self).input_slots,
            final(self).output_slots == old(self).output_slots,
            final(self).edges == old(self).edges,
            r is Err ==> r == Err::<&mut T, RenderGraphError>(RenderGraphError::WrongNodeType)
                && final(self).node == old(self).node,
    {
        match downcast_mut::<N, T>(&mut self.node) {
            Some(n) => Ok(n),
            None => Err(RenderGraphError::WrongNodeType),
        }
    }

    /// Checks that each input slot has a slot edge; the first slot without
    /// one is the error.
    pub fn validate_input_slots(&self) -> (r: Result<(), RenderGraphError>)
        ensures
            r is Ok <==> inputs_connected(self.edges@.inputs, self.input_slots@.len()),
            r is Err ==> exists|i: usize|
                #![trigger has_input_slot_edge(self.edges@.inputs, i)]
                i < self.input_slots@.len() && !has_input_slot_edge(self.edges@.inputs, i)
                    && inputs_connected(self.edges@.inputs, i as nat)
                    && r == Err::<(), RenderGraphError>(
                    RenderGraphError::UnconnectedNodeInputSlot { input_slot: i, node: self.edges@.label },
                ),
    {
        let mut i: usize = 0;
        while i < self.input_slots.len()
            invariant
                i <= self.input_slots@.len(),
                inputs_connected(self.edges@.inputs, i as nat),
            decreases self.input_slots@.len() - i,
        {
            match self.edges.get_input_slot_edge(i) {
                Ok(_) => {},
                Err(e) => {
                    return Err(e);
                },
            }
            i += 1;
        }
        Ok(())
    }

    /// Checks that each output slot has a slot edge; the first slot without
    /// one is the error.
    pub fn validate_output_slots(&self) -> (r: Result<(), RenderGraphError>)
        ensures
            r is Ok <==> outputs_connected(self.edges@.outputs, self.output_slots@.len()),
            r is Err ==> exists|i: usize|
                #![trigger has_output_slot_edge(self.edges@.outputs, i)]
                i < self.output_slots@.len() && !has_output_slot_edge(self.edges@.outputs, i)
                    && outputs_connected(self.edges@.outputs, i as nat)
                    && r == Err::<(), RenderGraphError>(
                    RenderGraphError::UnconnectedNodeOutputSlot { output_slot: i, node: self.edges@.label },
                ),
    {
        let mut i: usize = 0;
        while i < self.output_slots.len()
            invariant
                i <= self.output_slots@.len(),
                outputs_connected(self.edges@.outputs, i as nat),
            decreases self.output_slots@.len() - i,
        {
            match self.edges.get_output_slot_edge(i) {
                Ok(_) => {},
                Err(e) => {
                    return Err(e);
                },
            }
            i += 1;
        }
        Ok(())
    }
}

/// A node without slots or work; it only gathers edges in one place.
#[derive(Clone, Copy, Debug, Default)]
pub struct EmptyNode;

impl Node for EmptyNode {
    open spec fn declared_inputs(&self) -> Seq<SlotInfo> {
        Seq::empty()
    }

    open spec fn declared_outputs(&self) -> Seq<SlotInfo> {
        Seq::empty()
    }

    fn input(&self) -> (r: Vec<SlotInfo>) {
        Vec::new()
    }

    fn output(&self) -> (r: Vec<SlotInfo>) {
        Vec::new()
    }

    fn update(&mut self) {
    }

    fn run(&self, graph: &mut RenderGraphContext) -> (r: Result<(), NodeRunError>)
        ensures
            r is Ok,
            *final(graph) == *old(graph),
    {
        Ok(())
    }
}

/// A node that runs one sub-graph for the current view.
#[derive(Clone, Copy, Debug)]
pub struct RunGraphOnViewNode {
    sub_graph: InternedRenderSubGraph,
}

impl RunGraphOnViewNode {
    pub fn new(sub_graph: InternedRenderSubGraph) -> (r: Self)
        ensures
            r.sub_graph() == sub_graph,
    {
        RunGraphOnViewNode { sub_graph }
    }

    /// The sub-graph this node runs.
    pub closed spec fn sub_graph(&self) -> InternedRenderSubGraph {
        self.sub_graph
    }
}

impl Node for RunGraphOnViewNode {
    open spec fn declared_inputs(&self) -> Seq<SlotInfo> {
        Seq::empty()
    }

    open spec fn declared_outputs(&self) -> Seq<SlotInfo> {
        Seq::empty()
    }

    fn input(&self) -> (r: Vec<SlotInfo>) {
        Vec::new()
    }

    fn output(&self) -> (r: Vec<SlotInfo>) {
        Vec::new()
    }

    fn update(&mut self) {
    }

    /// Asks `graph` to run the sub-graph, with no inputs, for the current view.
    fn run(&self, graph: &mut RenderGraphContext) -> (r: Result<(), NodeRunError>)
        ensures
            final(graph).wf(),
            ({
                let check = sub_graph_check(
                    find_sub_graph(old(graph).sub_graphs@, self.sub_graph()),
                    self.sub_graph(),
                    Seq::empty(),
                );
                &&& check is Ok ==> r is Ok
                &&& check is Err ==> r == Err::<(), NodeRunError>(NodeRunError::RunSubGraphError(check->Err_0))
            }),
            r is Ok ==> final(graph).run_sub_graphs@ == old(graph).run_sub_graphs@.push(
                crate::context::RunSubGraph {
                    sub_graph: self.sub_graph(),
                    inputs: final(graph).run_sub_graphs@.last().inputs,
                    view_entity: old(graph).view_entity,
                },
            ) && final(graph).run_sub_graphs@.last().inputs@.len() == 0,
            r is Err ==> final(graph).run_sub_graphs == old(graph).run_sub_graphs,
            final(graph).outputs == old(graph).outputs,
            final(graph).inputs == old(graph).inputs,
            final(graph).output_slots == old(graph).output_slots,
            final(graph).view_entity == old(graph).view_entity,
            final(graph).sub_graphs == old(graph).sub_graphs,
    {
        let view = graph.get_view_entity();
        match graph.run_sub_graph(self.sub_graph, Vec::new(), view) {
            Ok(()) => Ok(()),
            Err(e) => Err(NodeRunError::RunSubGraphError(e)),
        }
    }
}

/// A node that works on the single view entity of the frame, given what
/// its view query found there.
pub trait ViewNode {
    /// What the node's view query reads from the view entity.
    type ViewQueryItem;

    /// Whether `after` is the node as `update` leaves it, starting from
    /// `self`; a node that promises nothing keeps the default.
    open spec fn updated(&self, after: &Self) -> bool {
        true
    }

    /// Whether running on context `before` with `item` may leave the
    /// context `after` and answer `r`; a node that promises nothing keeps
    /// the default.
    open spec fn ran(
        &self,
        before: RenderGraphContext,
        item: Self::ViewQueryItem,
        after: RenderGraphContext,
        r: Result<(), NodeRunError>,
    ) -> bool {
        true
    }

    /// Refreshes the node's own state before it runs this frame.
    fn update(&mut self)
        ensures
            old(self).updated(&*final(self)),
    ;

    /// Does the node's work for a view entity that matched its query.
    fn run(&self, graph: &mut RenderGraphContext, view_query: Self::ViewQueryItem) -> (r: Result<
        (),
        NodeRunError,
    >)
        requires
            old(graph).wf(),
        ensures
            final(graph).wf(),
            self.ran(*old(graph), view_query, *final(graph), r),
    ;
}

/// Runs a [`ViewNode`] only on frames where the view entity matches its query.
pub struct ViewNodeRunner<N> {
    pub node: N,
}

impl<N: ViewNode> ViewNodeRunner<N> {
    pub fn new(node: N) -> (r: Self)
        ensures
            r.node == node,
    {
        ViewNodeRunner { node }
    }

    /// Refreshes the wrapped node.
    pub fn update(&mut self)
        ensures
            old(self).node.updated(&final(self).node),
    {
        self.node.update();
    }

    /// Runs the wrapped node with what the view query found on the view
    /// entity; when the view did not match (`None`), the node is skipped,
    /// nothing in `graph` changes, and the run succeeds.
    pub fn run(&self, graph: &mut RenderGraphContext, view: Option<N::ViewQueryItem>) -> (r: Result<
        (),
        NodeRunError,
    >)
        requires
            old(graph).wf(),
        ensures
            final(graph).wf(),
            view is None ==> r is Ok && *final(graph) == *old(graph),
            view is Some ==> self.node.ran(*old(graph), view->Some_0, *final(graph), r),
    {
        match view {
            None => Ok(()),
            Some(item) => self.node.run(graph, item),
        }
    }
}

} // verus!
