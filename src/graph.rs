use vstd::prelude::*;
use crate::edge::{Edge, RenderGraphError};
use crate::label::InternedRenderLabel;
use crate::node::{
    Node, NodeState, first_input_slot_edge, has_input_slot_edge, has_output_slot_edge,
    inputs_connected, outputs_connected,
};

verus! {

/// The position of the node labelled `label` among `nodes`.
pub open spec fn index_of<N>(nodes: Seq<NodeState<N>>, label: InternedRenderLabel) -> Option<int> {
    if exists|i: int| 0 <= i < nodes.len() && (#[trigger] nodes[i]).label == label {
        Some(choose|i: int| 0 <= i < nodes.len() && (#[trigger] nodes[i]).label == label)
    } else {
        None
    }
}

/// Whether no two of `nodes` share a label.
pub open spec fn labels_unique<N>(nodes: Seq<NodeState<N>>) -> bool {
    forall|i: int, j: int|
        0 <= i < nodes.len() && 0 <= j < nodes.len() && i != j ==> (#[trigger] nodes[i]).label != (
        #[trigger] nodes[j]).label
}

/// `after` is `before` with `e` added to the output edges of node `o` and
/// to the input edges of node `i`; nothing else changes.
pub open spec fn edge_added<N>(before: Seq<NodeState<N>>, after: Seq<NodeState<N>>, o: int, i: int, e: Edge) -> bool {
    &&& after.len() == before.len()
    &&& forall|j: int|
        0 <= j < before.len() ==> {
            &&& (#[trigger] after[j]).label == before[j].label
            &&& after[j].node == before[j].node
            &&& after[j].input_slots == before[j].input_slots
            &&& after[j].output_slots == before[j].output_slots
            &&& after[j].edges@.label == before[j].edges@.label
            &&& after[j].edges@.outputs == if j == o {
                before[j].edges@.outputs.push(e)
            } else {
                before[j].edges@.outputs
            }
            &&& after[j].edges@.inputs == if j == i {
                before[j].edges@.inputs.push(e)
            } else {
                before[j].edges@.inputs
            }
        }
}

/// What adding `e` between existing nodes `o` and `i` answers when the
/// edge's own checks have passed.
pub open spec fn duplicate_check<N>(nodes: Seq<NodeState<N>>, o: int, i: int, e: Edge) -> Result<(), RenderGraphError> {
    if nodes[o].edges@.outputs.contains(e) || nodes[i].edges@.inputs.contains(e) {
        Err(RenderGraphError::EdgeAlreadyExists(e))
    } else {
        Ok(())
    }
}

/// What `add_node_edge(output, input)` answers on `nodes`.
pub open spec fn node_edge_outcome<N>(
    nodes: Seq<NodeState<N>>,
    output: InternedRenderLabel,
    input: InternedRenderLabel,
) -> Result<(), RenderGraphError> {
    match (index_of(nodes, output), index_of(nodes, input)) {
        (None, _) => Err(RenderGraphError::InvalidNode(output)),
        (Some(_), None) => Err(RenderGraphError::InvalidNode(input)),
        (Some(o), Some(i)) => duplicate_check(
            nodes,
            o,
            i,
            Edge::NodeEdge { input_node: input, output_node: output },
        ),
    }
}

/// What `add_slot_edge(output, output_index, input, input_index)` answers
/// on `nodes`: both nodes must exist, both slots must be declared, the edge
/// must be new, the input slot free, and the two slots of one type.
pub open spec fn slot_edge_outcome<N>(
    nodes: Seq<NodeState<N>>,
    output: InternedRenderLabel,
    output_index: usize,
    input: InternedRenderLabel,
    input_index: usize,
) -> Result<(), RenderGraphError> {
    let e = Edge::SlotEdge { input_node: input, input_index, output_node: output, output_index };
    match (index_of(nodes, output), index_of(nodes, input)) {
        (None, _) => Err(RenderGraphError::InvalidNode(output)),
        (Some(_), None) => Err(RenderGraphError::InvalidNode(input)),
        (Some(o), Some(i)) => if output_index >= nodes[o].output_slots@.len() {
            Err(RenderGraphError::InvalidOutputNodeSlot(output_index))
        } else if input_index >= nodes[i].input_slots@.len() {
            Err(RenderGraphError::InvalidInputNodeSlot(input_index))
        } else if duplicate_check(nodes, o, i, e) is Err {
            duplicate_check(nodes, o, i, e)
        } else {
            match first_input_slot_edge(nodes[i].edges@.inputs, input_index) {
                Some(k) => Err(
                    RenderGraphError::NodeInputSlotAlreadyOccupied {
                        node: input,
                        input_slot: input_index,
                        occupied_by_node: nodes[i].edges@.inputs[k].spec_output_node(),
                    },
                ),
                None => if nodes[o].output_slots@[output_index as int].slot_type
                    != nodes[i].input_slots@[input_index as int].slot_type {
                    Err(
                        RenderGraphError::MismatchedNodeSlots {
                            output_node: output,
                            output_slot: output_index,
                            input_node: input,
                            input_slot: input_index,
                        },
                    )
                } else {
                    Ok(())
                },
            }
        },
    }
}

/// One error for each of input slots `0..n` that has no slot edge among
/// `edges`, in slot order.
pub open spec fn input_slot_errors(edges: Seq<Edge>, node: InternedRenderLabel, n: nat) -> Seq<RenderGraphError>
    decreases n,
{
    if n == 0 {
        Seq::empty()
    } else {
        let before = input_slot_errors(edges, node, (n - 1) as nat);
        if has_input_slot_edge(edges, (n - 1) as usize) {
            before
        } else {
            before.push(RenderGraphError::UnconnectedNodeInputSlot { input_slot: (n - 1) as usize, node })
        }
    }
}

/// One error for each of output slots `0..n` that has no slot edge among
/// `edges`, in slot order.
pub open spec fn output_slot_errors(edges: Seq<Edge>, node: InternedRenderLabel, n: nat) -> Seq<RenderGraphError>
    decreases n,
{
    if n == 0 {
        Seq::empty()
    } else {
        let before = output_slot_errors(edges, node, (n - 1) as nat);
        if has_output_slot_edge(edges, (n - 1) as usize) {
            before
        } else {
            before.push(RenderGraphError::UnconnectedNodeOutputSlot { output_slot: (n - 1) as usize, node })
        }
    }
}

/// Every unconnected slot of `state`: its input slots, then its output slots.
pub open spec fn node_slot_errors<N>(state: NodeState<N>) -> Seq<RenderGraphError> {
    input_slot_errors(state.edges@.inputs, state.edges@.label, state.input_slots@.len())
        + output_slot_errors(state.edges@.outputs, state.edges@.label, state.output_slots@.len())
}

/// Every unconnected slot of the first `k` of `nodes`, node by node.
pub open spec fn graph_slot_errors<N>(nodes: Seq<NodeState<N>>, k: nat) -> Seq<RenderGraphError>
    decreases k,
{
    if k == 0 || k > nodes.len() {
        Seq::empty()
    } else {
        graph_slot_errors(nodes, (k - 1) as nat) + node_slot_errors(nodes[k - 1])
    }
}

proof fn lemma_input_slot_errors_empty(edges: Seq<Edge>, node: InternedRenderLabel, n: nat)
    ensures
        input_slot_errors(edges, node, n).len() == 0 <==> inputs_connected(edges, n),
    decreases n,
{
    if n > 0 {
        lemma_input_slot_errors_empty(edges, node, (n - 1) as nat);
        let last = (n - 1) as usize;
        if inputs_connected(edges, n) {
            assert(has_input_slot_edge(edges, last));
            assert forall|i: usize| i < (n - 1) as nat implies has_input_slot_edge(edges, i) by {}
        } else if has_input_slot_edge(edges, last) {
            assert(!inputs_connected(edges, (n - 1) as nat)) by {
                if inputs_connected(edges, (n - 1) as nat) {
                    assert forall|i: usize| i < n implies has_input_slot_edge(edges, i) by {
                        if i != last {}
                    }
                }
            }
        }
    }
}

proof fn lemma_output_slot_errors_empty(edges: Seq<Edge>, node: InternedRenderLabel, n: nat)
    ensures
        output_slot_errors(edges, node, n).len() == 0 <==> outputs_connected(edges, n),
    decreases n,
{
    if n > 0 {
        lemma_output_slot_errors_empty(edges, node, (n - 1) as nat);
        let last = (n - 1) as usize;
        if outputs_connected(edges, n) {
            assert(has_output_slot_edge(edges, last));
            assert forall|i: usize| i < (n - 1) as nat implies has_output_slot_edge(edges, i) by {}
        } else if has_output_slot_edge(edges, last) {
            assert(!outputs_connected(edges, (n - 1) as nat)) by {
                if outputs_connected(edges, (n - 1) as nat) {
                    assert forall|i: usize| i < n implies has_output_slot_edge(edges, i) by {
                        if i != last {}
                    }
                }
            }
        }
    }
}

proof fn lemma_graph_slot_errors_empty<N>(nodes: Seq<NodeState<N>>, k: nat, i: int)
    requires
        k <= nodes.len(),
        graph_slot_errors(nodes, k).len() == 0,
        0 <= i < k,
    ensures
        node_slot_errors(nodes[i]).len() == 0,
    decreases k,
{
    if i < k - 1 {
        lemma_graph_slot_errors_empty(nodes, (k - 1) as nat, i);
    }
}

/// A graph whose validation reports no error has every declared slot of
/// every node connected, so looking up the slot edge of any declared input
/// or output slot succeeds.
pub proof fn lemma_validated_graph_is_connected<N>(nodes: Seq<NodeState<N>>, i: int)
    requires
        graph_slot_errors(nodes, nodes.len()).len() == 0,
        0 <= i < nodes.len(),
    ensures
        inputs_connected(nodes[i].edges@.inputs, nodes[i].input_slots@.len()),
        outputs_connected(nodes[i].edges@.outputs, nodes[i].output_slots@.len()),
{
    lemma_graph_slot_errors_empty(nodes, nodes.len(), i);
    let state = nodes[i];
    lemma_input_slot_errors_empty(state.edges@.inputs, state.edges@.label, state.input_slots@.len());
    lemma_output_slot_errors_empty(state.edges@.outputs, state.edges@.label, state.output_slots@.len());
}

/// Whether every node with an edge into `state` is among `done`.
pub open spec fn ready<N>(state: NodeState<N>, done: Seq<InternedRenderLabel>) -> bool {
    forall|k: int|
        0 <= k < state.edges@.inputs.len() ==> done.contains(
            (#[trigger] state.edges@.inputs[k]).spec_output_node(),
        )
}

/// Whether `order` lists every node once, each after all nodes with an edge
/// into it.
pub open spec fn is_schedule<N>(nodes: Seq<NodeState<N>>, order: Seq<InternedRenderLabel>) -> bool {
    &&& order.no_duplicates()
    &&& forall|i: int| 0 <= i < nodes.len() ==> order.contains(#[trigger] nodes[i].label)
    &&& forall|p: int|
        0 <= p < order.len() ==> exists|i: int|
            0 <= i < nodes.len() && nodes[i].label == #[trigger] order[p] && ready(nodes[i], order.take(p))
}

/// Whether, once the nodes in `done` have run, some node is left and every
/// node left waits for a node that has not run: no node can run next.
pub open spec fn stuck<N>(nodes: Seq<NodeState<N>>, done: Seq<InternedRenderLabel>) -> bool {
    &&& exists|i: int| 0 <= i < nodes.len() && !done.contains(#[trigger] nodes[i].label)
    &&& forall|i: int|
        0 <= i < nodes.len() && !done.contains(#[trigger] nodes[i].label) ==> !ready(nodes[i], done)
}

/// How many entries of `s` are false.
pub open spec fn count_false(s: Seq<bool>) -> nat
    decreases s.len(),
{
    if s.len() == 0 {
        0
    } else {
        count_false(s.drop_last()) + if s.last() {
            0nat
        } else {
            1nat
        }
    }
}

proof fn lemma_count_false_set(s: Seq<bool>, i: int)
    requires
        0 <= i < s.len(),
        !s[i],
    ensures
        count_false(s.update(i, true)) + 1 == count_false(s),
    decreases s.len(),
{
    let t = s.update(i, true);
    if i == s.len() - 1 {
        assert(t.drop_last() =~= s.drop_last());
    } else {
        assert(t.drop_last() =~= s.drop_last().update(i, true));
        lemma_count_false_set(s.drop_last(), i);
    }
}

/// Whether `l` is in `labels`.
fn contains_label(labels: &Vec<InternedRenderLabel>, l: InternedRenderLabel) -> (r: bool)
    ensures
        r == labels@.contains(l),
{
    let mut k: usize = 0;
    while k < labels.len()
        invariant
            k <= labels@.len(),
            forall|m: int| 0 <= m < k ==> labels@[m] != l,
        decreases labels@.len() - k,
    {
        if labels[k] == l {
            return true;
        }
        k += 1;
    }
    false
}

/// Whether every node with an edge into `state` is in `done`.
fn is_ready<N>(state: &NodeState<N>, done: &Vec<InternedRenderLabel>) -> (r: bool)
    ensures
        r == ready(*state, done@),
{
    let inputs = state.edges.input_edges();
    let mut k: usize = 0;
    while k < inputs.len()
        invariant
            k <= inputs@.len(),
            inputs@ == state.edges@.inputs,
            forall|m: int| 0 <= m < k ==> done@.contains((#[trigger] inputs@[m]).spec_output_node()),
        decreases inputs@.len() - k,
    {
        if !contains_label(done, inputs[k].get_output_node()) {
            return false;
        }
        k += 1;
    }
    true
}

/// Whether each input edge of `state` goes into it and each output edge
/// comes out of it.
pub open spec fn edges_belong_to<N>(state: NodeState<N>) -> bool {
    &&& forall|k: int|
        0 <= k < state.edges@.inputs.len() ==> (#[trigger] state.edges@.inputs[k]).spec_input_node()
            == state.label
    &&& forall|k: int|
        0 <= k < state.edges@.outputs.len() ==> (#[trigger] state.edges@.outputs[k]).spec_output_node()
            == state.label
}

/// A render graph: nodes under distinct labels, with the edges between them.
pub struct RenderGraph<N> {
    nodes: Vec<NodeState<N>>,
}

impl<N: Node + 'static> RenderGraph<N> {
    /// The nodes of the graph.
    pub closed spec fn nodes(&self) -> Seq<NodeState<N>> {
        self.nodes@
    }

    /// Labels are unique and each node's edges are well formed and carry
    /// its label.
    pub open spec fn wf(&self) -> bool {
        &&& labels_unique(self.nodes())
        &&& forall|i: int|
            0 <= i < self.nodes().len() ==> (#[trigger] self.nodes()[i]).wf()
                && self.nodes()[i].edges.wf() && edges_belong_to(self.nodes()[i])
    }

    /// A graph without nodes.
    pub fn new() -> (r: Self)
        ensures
            r.wf(),
            r.nodes().len() == 0,
    {
        RenderGraph { nodes: Vec::new() }
    }

    /// The position of the node labelled `label`.
    fn position(&self, label: InternedRenderLabel) -> (r: Option<usize>)
        requires
            self.wf(),
        ensures
            match r {
                Some(i) => i < self.nodes().len() && self.nodes()[i as int].label == label && index_of(
                    self.nodes(),
                    label,
                ) == Some(i as int),
                None => index_of(self.nodes(), label) is None,
            },
    {
        let mut i: usize = 0;
        while i < self.nodes.len()
            invariant
                i <= self.nodes@.len(),
                labels_unique(self.nodes@),
                forall|k: int| 0 <= k < i ==> (#[trigger] self.nodes@[k]).label != label,
            decreases self.nodes@.len() - i,
        {
            if self.nodes[i].label == label {
                proof {
                    let j = index_of(self.nodes(), label)->Some_0;
                    assert(self.nodes@[j].label == label);
                }
                return Some(i);
            }
            i += 1;
        }
        None
    }

    /// Adds `node` under `label`; a node already under `label` is replaced,
    /// edges and all.
    pub fn add_node(&mut self, label: InternedRenderLabel, node: N)
        requires
            old(self).wf(),
        ensures
            final(self).wf(),
            index_of(old(self).nodes(), label) is None ==> final(self).nodes().len() == old(
                self,
            ).nodes().len() + 1,
            index_of(old(self).nodes(), label) is Some ==> final(self).nodes().len() == old(
                self,
            ).nodes().len(),
            ({
                let i = index_of(final(self).nodes(), label);
                &&& i is Some
                &&& final(self).nodes()[i->Some_0].node == node
                &&& final(self).nodes()[i->Some_0].edges@.inputs.len() == 0
                &&& final(self).nodes()[i->Some_0].edges@.outputs.len() == 0
            }),
            forall|j: int|
                0 <= j < old(self).nodes().len() && (#[trigger] old(self).nodes()[j]).label != label
                    ==> final(self).nodes()[j] == old(self).nodes()[j],
    {
        let state = NodeState::new(label, node);
        match self.position(label) {
            Some(i) => {
                self.nodes.set(i, state);
                proof {
                    let nodes = self.nodes@;
                    assert(nodes[i as int].label == label);
                    let k = index_of(nodes, label)->Some_0;
                    assert(nodes[k].label == label);
                    if k != i as int {
                        assert(old(self).nodes@[k].label == label);
                    }
                }
            },
            None => {
                self.nodes.push(state);
                proof {
                    let nodes = self.nodes@;
                    let last = nodes.len() - 1;
                    assert(nodes[last].label == label);
                    let k = index_of(nodes, label)->Some_0;
                    assert(nodes[k].label == label);
                    if k != last {
                        assert(old(self).nodes@[k].label == label);
                    }
                }
            },
        }
    }

    /// The record of the node labelled `label`.
    pub fn get_node_state(&self, label: InternedRenderLabel) -> (r: Result<&NodeState<N>, RenderGraphError>)
        requires
            self.wf(),
        ensures
            match index_of(self.nodes(), label) {
                Some(i) => r == Ok::<&NodeState<N>, RenderGraphError>(&self.nodes()[i]),
                None => r == Err::<&NodeState<N>, RenderGraphError>(RenderGraphError::InvalidNode(label)),
            },
    {
        match self.position(label) {
            Some(i) => Ok(&self.nodes[i]),
            None => Err(RenderGraphError::InvalidNode(label)),
        }
    }
}

impl<N: Node + 'static> RenderGraph<N> {
    /// Adds `e` to the output edges of node `o` and the input edges of node
    /// `i`, neither of which holds it.
    fn insert_edge(&mut self, o: usize, i: usize, e: Edge)
        requires
            old(self).wf(),
            o < old(self).nodes().len(),
            i < old(self).nodes().len(),
            !old(self).nodes()[o as int].edges@.outputs.contains(e),
            !old(self).nodes()[i as int].edges@.inputs.contains(e),
            e.spec_output_node() == old(self).nodes()[o as int].label,
            e.spec_input_node() == old(self).nodes()[i as int].label,
        ensures
            final(self).wf(),
            edge_added(old(self).nodes(), final(self).nodes(), o as int, i as int, e),
    {
        let ghost before = self.nodes@;
        let r1 = self.nodes[o].edges.add_output_edge(e);
        let ghost middle = self.nodes@;
        assert(middle[i as int].edges@.inputs == before[i as int].edges@.inputs);
        let r2 = self.nodes[i].edges.add_input_edge(e);
        assert(labels_unique(self.nodes@)) by {
            assert forall|a: int, b: int|
                0 <= a < self.nodes@.len() && 0 <= b < self.nodes@.len() && a != b implies (
                #[trigger] self.nodes@[a]).label != (#[trigger] self.nodes@[b]).label by {
                assert(self.nodes@[a].label == before[a].label);
                assert(self.nodes@[b].label == before[b].label);
            }
        }
        assert forall|j: int| 0 <= j < self.nodes@.len() implies (#[trigger] self.nodes@[j]).wf()
            && self.nodes@[j].edges.wf() && edges_belong_to(self.nodes@[j]) by {
            assert(before[j].wf() && before[j].edges.wf() && edges_belong_to(before[j]));
            let after = self.nodes@[j];
            assert forall|k: int| 0 <= k < after.edges@.inputs.len() implies (#[trigger] after.edges@.inputs[k]).spec_input_node()
                == after.label by {
                if k < before[j].edges@.inputs.len() {
                    assert(after.edges@.inputs[k] == before[j].edges@.inputs[k]);
                }
            }
            assert forall|k: int| 0 <= k < after.edges@.outputs.len() implies (#[trigger] after.edges@.outputs[k]).spec_output_node()
                == after.label by {
                if k < before[j].edges@.outputs.len() {
                    assert(after.edges@.outputs[k] == before[j].edges@.outputs[k]);
                }
            }
        }
    }

    /// Adds an ordering edge: `output` runs before `input`.
    pub fn add_node_edge(&mut self, output: InternedRenderLabel, input: InternedRenderLabel) -> (r: Result<
        (),
        RenderGraphError,
    >)
        requires
            old(self).wf(),
        ensures
            final(self).wf(),
            r == node_edge_outcome(old(self).nodes(), output, input),
            r is Err ==> final(self).nodes() == old(self).nodes(),
            r is Ok ==> edge_added(
                old(self).nodes(),
                final(self).nodes(),
                index_of(old(self).nodes(), output)->Some_0,
                index_of(old(self).nodes(), input)->Some_0,
                Edge::NodeEdge { input_node: input, output_node: output },
            ),
    {
        let o = match self.position(output) {
            Some(o) => o,
            None => {
                return Err(RenderGraphError::InvalidNode(output));
            },
        };
        let i = match self.position(input) {
            Some(i) => i,
            None => {
                return Err(RenderGraphError::InvalidNode(input));
            },
        };
        let e = Edge::NodeEdge { input_node: input, output_node: output };
        if self.nodes[o].edges.has_output_edge(&e) || self.nodes[i].edges.has_input_edge(&e) {
            return Err(RenderGraphError::EdgeAlreadyExists(e));
        }
        self.insert_edge(o, i, e);
        Ok(())
    }

    /// Adds a data edge from output slot `output_index` of `output` to input
    /// slot `input_index` of `input`.
    pub fn add_slot_edge(
        &mut self,
        output: InternedRenderLabel,
        output_index: usize,
        input: InternedRenderLabel,
        input_index: usize,
    ) -> (r: Result<(), RenderGraphError>)
        requires
            old(self).wf(),
        ensures
            final(self).wf(),
            r == slot_edge_outcome(old(self).nodes(), output, output_index, input, input_index),
            r is Err ==> final(self).nodes() == old(self).nodes(),
            r is Ok ==> edge_added(
                old(self).nodes(),
                final(self).nodes(),
                index_of(old(self).nodes(), output)->Some_0,
                index_of(old(self).nodes(), input)->Some_0,
                Edge::SlotEdge { input_node: input, input_index, output_node: output, output_index },
            ),
    {
        let o = match self.position(output) {
            Some(o) => o,
            None => {
                return Err(RenderGraphError::InvalidNode(output));
            },
        };
        let i = match self.position(input) {
            Some(i) => i,
            None => {
                return Err(RenderGraphError::InvalidNode(input));
            },
        };
        if output_index >= self.nodes[o].output_slots.len() {
            return Err(RenderGraphError::InvalidOutputNodeSlot(output_index));
        }
        if input_index >= self.nodes[i].input_slots.len() {
            return Err(RenderGraphError::InvalidInputNodeSlot(input_index));
        }
        let e = Edge::SlotEdge { input_node: input, input_index, output_node: output, output_index };
        if self.nodes[o].edges.has_output_edge(&e) || self.nodes[i].edges.has_input_edge(&e) {
            return Err(RenderGraphError::EdgeAlreadyExists(e));
        }
        match self.nodes[i].edges.get_input_slot_edge(input_index) {
            Ok(existing) => {
                return Err(
                    RenderGraphError::NodeInputSlotAlreadyOccupied {
                        node: input,
                        input_slot: input_index,
                        occupied_by_node: existing.get_output_node(),
                    },
                );
            },
            Err(_) => {},
        }
        if self.nodes[o].output_slots[output_index].slot_type != self.nodes[i].input_slots[input_index].slot_type {
            return Err(
                RenderGraphError::MismatchedNodeSlots {
                    output_node: output,
                    output_slot: output_index,
                    input_node: input,
                    input_slot: input_index,
                },
            );
        }
        self.insert_edge(o, i, e);
        Ok(())
    }
}

impl<N: Node + 'static> RenderGraph<N> {
    /// Every slot of every node that has no slot edge: for each node in
    /// turn, its unconnected input slots and then its unconnected output
    /// slots. The graph may run only when this is empty.
    pub fn validate(&self) -> (r: Vec<RenderGraphError>)
        requires
            self.wf(),
        ensures
            r@ == graph_slot_errors(self.nodes(), self.nodes().len()),
    {
        let mut errors: Vec<RenderGraphError> = Vec::new();
        let mut n: usize = 0;
        while n < self.nodes.len()
            invariant
                n <= self.nodes@.len(),
                errors@ == graph_slot_errors(self.nodes@, n as nat),
            decreases self.nodes@.len() - n,
        {
            let state = &self.nodes[n];
            let ghost start = errors@;
            let mut i: usize = 0;
            while i < state.input_slots.len()
                invariant
                    i <= state.input_slots@.len(),
                    errors@ == start + input_slot_errors(state.edges@.inputs, state.edges@.label, i as nat),
                decreases state.input_slots@.len() - i,
            {
                match state.edges.get_input_slot_edge(i) {
                    Ok(_) => {},
                    Err(e) => {
                        errors.push(e);
                    },
                }
                i += 1;
                assert(errors@ =~= start + input_slot_errors(state.edges@.inputs, state.edges@.label, i as nat));
            }
            let ghost middle = errors@;
            let mut o: usize = 0;
            while o < state.output_slots.len()
                invariant
                    o <= state.output_slots@.len(),
                    errors@ == middle + output_slot_errors(state.edges@.outputs, state.edges@.label, o as nat),
                decreases state.output_slots@.len() - o,
            {
                match state.edges.get_output_slot_edge(o) {
                    Ok(_) => {},
                    Err(e) => {
                        errors.push(e);
                    },
                }
                o += 1;
                assert(errors@ =~= middle + output_slot_errors(state.edges@.outputs, state.edges@.label, o as nat));
            }
            n += 1;
            assert(errors@ =~= graph_slot_errors(self.nodes@, n as nat));
        }
        errors
    }

    /// The order in which the nodes run, once the graph has passed
    /// validation: every unconnected slot, when there is one, refuses the
    /// run; a cycle refuses it too.
    pub fn checked_execution_order(&self) -> (r: Result<Vec<InternedRenderLabel>, Vec<RenderGraphError>>)
        requires
            self.wf(),
        ensures
            graph_slot_errors(self.nodes(), self.nodes().len()).len() > 0 ==> r is Err && r->Err_0@
                == graph_slot_errors(self.nodes(), self.nodes().len()),
            graph_slot_errors(self.nodes(), self.nodes().len()).len() == 0 ==> match r {
                Ok(order) => is_schedule(self.nodes(), order@),
                Err(errors) => errors@ == seq![RenderGraphError::DependencyCycle] && exists|
                    done: Seq<InternedRenderLabel>,
                | stuck(self.nodes(), done),
            },
    {
        let errors = self.validate();
        if errors.len() > 0 {
            return Err(errors);
        }
        match self.execution_order() {
            Ok(order) => Ok(order),
            Err(e) => {
                let mut errors: Vec<RenderGraphError> = Vec::new();
                errors.push(e);
                Err(errors)
            },
        }
    }

    /// An order in which the nodes can run: each node after every node with
    /// an edge into it. Fails with `DependencyCycle` when, at some point, no
    /// node that is left can run.
    #[verifier::loop_isolation(false)]
    pub fn execution_order(&self) -> (r: Result<Vec<InternedRenderLabel>, RenderGraphError>)
        requires
            self.wf(),
        ensures
            match r {
                Ok(order) => is_schedule(self.nodes(), order@),
                Err(e) => e == RenderGraphError::DependencyCycle && exists|done: Seq<InternedRenderLabel>|
                    stuck(self.nodes(), done),
            },
    {
        let n = self.nodes.len();
        let mut placed: Vec<bool> = Vec::new();
        while placed.len() < n
            invariant
                placed@.len() <= n,
                forall|i: int| 0 <= i < placed@.len() ==> !placed@[i],
            decreases n - placed@.len(),
        {
            placed.push(false);
        }
        let mut order: Vec<InternedRenderLabel> = Vec::new();
        loop
            invariant
                n == self.nodes@.len(),
                labels_unique(self.nodes@),
                placed@.len() == n,
                forall|i: int| 0 <= i < n ==> (#[trigger] placed@[i] <==> order@.contains(self.nodes@[i].label)),
                order@.no_duplicates(),
                forall|p: int|
                    0 <= p < order@.len() ==> exists|i: int|
                        0 <= i < n && self.nodes@[i].label == #[trigger] order@[p] && ready(
                            self.nodes@[i],
                            order@.take(p),
                        ),
            decreases count_false(placed@),
        {
            let mut found: Option<usize> = None;
            let mut any_left = false;
            let mut j: usize = 0;
            while j < n
                invariant
                    n == self.nodes@.len(),
                    placed@.len() == n,
                    j <= n,
                    any_left <==> exists|i: int| 0 <= i < j && !(#[trigger] placed@[i]),
                    match found {
                        Some(f) => f < n && !placed@[f as int] && ready(self.nodes@[f as int], order@),
                        None => forall|i: int|
                            0 <= i < j && !(#[trigger] placed@[i]) ==> !ready(self.nodes@[i], order@),
                    },
                decreases n - j,
            {
                if !placed[j] {
                    any_left = true;
                    if found.is_none() && is_ready(&self.nodes[j], &order) {
                        found = Some(j);
                    }
                }
                j += 1;
            }
            match found {
                Some(j) => {
                    let l = self.nodes[j].label;
                    let ghost before = order@;
                    let ghost placed_before = placed@;
                    assert(!before.contains(l));
                    order.push(l);
                    placed.set(j, true);
                    proof {
                        lemma_count_false_set(placed_before, j as int);
                        assert forall|i: int| 0 <= i < n implies (#[trigger] placed@[i] <==> order@.contains(
                            self.nodes@[i].label,
                        )) by {
                            if i != j {
                                assert(self.nodes@[i].label != l);
                                if before.contains(self.nodes@[i].label) {
                                    let q = choose|q: int| 0 <= q < before.len() && before[q] == self.nodes@[i].label;
                                    assert(order@[q] == self.nodes@[i].label);
                                }
                                if order@.contains(self.nodes@[i].label) {
                                    let q = choose|q: int| 0 <= q < order@.len() && order@[q] == self.nodes@[i].label;
                                    assert(before[q] == self.nodes@[i].label);
                                }
                            } else {
                                assert(order@[before.len() as int] == l);
                            }
                        }
                        assert forall|a: int, b: int|
                            0 <= a < order@.len() && 0 <= b < order@.len() && a != b implies order@[a] != order@[b] by {
                            if a < before.len() && b < before.len() {
                                assert(order@[a] == before[a] && order@[b] == before[b]);
                            } else if a < before.len() {
                                assert(order@[a] == before[a]);
                            } else {
                                assert(order@[b] == before[b]);
                            }
                        }
                        assert forall|p: int| 0 <= p < order@.len() implies exists|i: int|
                            0 <= i < n && self.nodes@[i].label == #[trigger] order@[p] && ready(
                                self.nodes@[i],
                                order@.take(p),
                            ) by {
                            if p < before.len() {
                                assert(order@.take(p) =~= before.take(p));
                                assert(order@[p] == before[p]);
                            } else {
                                assert(order@.take(p) =~= before);
                                assert(self.nodes@[j as int].label == order@[p]);
                            }
                        }
                    }
                },
                None => {
                    if any_left {
                        proof {
                            let i = choose|i: int| 0 <= i < j && !(#[trigger] placed@[i]);
                            assert(!order@.contains(self.nodes@[i].label));
                            assert forall|k: int|
                                0 <= k < n && !order@.contains(#[trigger] self.nodes@[k].label) implies !ready(
                                self.nodes@[k],
                                order@,
                            ) by {
                                assert(!placed@[k]);
                            }
                            assert(stuck(self.nodes@, order@));
                        }
                        return Err(RenderGraphError::DependencyCycle);
                    }
                    proof {
                        assert forall|i: int| 0 <= i < n implies order@.contains(#[trigger] self.nodes@[i].label) by {
                            if !placed@[i] {
                                assert(exists|k: int| 0 <= k < j && !(#[trigger] placed@[k]));
                            }
                        }
                    }
                    return Ok(order);
                },
            }
        }
    }
}

} // verus!
