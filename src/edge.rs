use vstd::prelude::*;
use crate::label::InternedRenderLabel;

verus! {

/// The kind of value that a slot carries.
#[derive(Clone, Copy, Debug, PartialEq, Eq, Hash, Structural)]
pub enum SlotType {
    Buffer,
    TextureView,
    Sampler,
    Entity,
}

/// Declaration of one input or output position of a node.
#[derive(Clone, Debug)]
pub struct SlotInfo {
    pub name: String,
    pub slot_type: SlotType,
}

impl SlotInfo {
    pub fn new(name: String, slot_type: SlotType) -> (r: Self)
        ensures
            r.name == name,
            r.slot_type == slot_type,
    {
        SlotInfo { name, slot_type }
    }
}

/// A dependency between two nodes.
#[derive(Clone, Copy, Debug, PartialEq, Eq, Hash, Structural)]
pub enum Edge {
    /// Output slot `output_index` of `output_node` feeds input slot
    /// `input_index` of `input_node`; `output_node` runs first.
    SlotEdge {
        input_node: InternedRenderLabel,
        input_index: usize,
        output_node: InternedRenderLabel,
        output_index: usize,
    },
    /// `output_node` runs before `input_node`; no data flows.
    NodeEdge { input_node: InternedRenderLabel, output_node: InternedRenderLabel },
}

impl Edge {
    pub open spec fn spec_input_node(self) -> InternedRenderLabel {
        match self {
            Edge::SlotEdge { input_node, .. } => input_node,
            Edge::NodeEdge { input_node, .. } => input_node,
        }
    }

    pub open spec fn spec_output_node(self) -> InternedRenderLabel {
        match self {
            Edge::SlotEdge { output_node, .. } => output_node,
            Edge::NodeEdge { output_node, .. } => output_node,
        }
    }

    /// The node that consumes the edge.
    pub fn get_input_node(&self) -> (r: InternedRenderLabel)
        ensures
            r == self.spec_input_node(),
    {
        match self {
            Edge::SlotEdge { input_node, .. } => *input_node,
            Edge::NodeEdge { input_node, .. } => *input_node,
        }
    }

    /// The node that produces the edge.
    pub fn get_output_node(&self) -> (r: InternedRenderLabel)
        ensures
            r == self.spec_output_node(),
    {
        match self {
            Edge::SlotEdge { output_node, .. } => *output_node,
            Edge::NodeEdge { output_node, .. } => *output_node,
        }
    }
}

/// Whether `e` is a slot edge into input slot `index`.
pub open spec fn is_input_slot_edge(e: Edge, index: usize) -> bool {
    match e {
        Edge::SlotEdge { input_index, .. } => input_index == index,
        Edge::NodeEdge { .. } => false,
    }
}

/// Whether `e` is a slot edge out of output slot `index`.
pub open spec fn is_output_slot_edge(e: Edge, index: usize) -> bool {
    match e {
        Edge::SlotEdge { output_index, .. } => output_index == index,
        Edge::NodeEdge { .. } => false,
    }
}

/// Errors of building and validating a render graph.
#[derive(Clone, Copy, Debug, PartialEq, Eq, Structural)]
pub enum RenderGraphError {
    EdgeAlreadyExists(Edge),
    EdgeDoesNotExist(Edge),
    UnconnectedNodeInputSlot { input_slot: usize, node: InternedRenderLabel },
    UnconnectedNodeOutputSlot { output_slot: usize, node: InternedRenderLabel },
    WrongNodeType,
    InvalidNode(InternedRenderLabel),
    InvalidOutputNodeSlot(usize),
    InvalidInputNodeSlot(usize),
    NodeInputSlotAlreadyOccupied {
        node: InternedRenderLabel,
        input_slot: usize,
        occupied_by_node: InternedRenderLabel,
    },
    MismatchedNodeSlots {
        output_node: InternedRenderLabel,
        output_slot: usize,
        input_node: InternedRenderLabel,
        input_slot: usize,
    },
    /// No node of the graph can run until one of the others has run.
    DependencyCycle,
}

} // verus!
