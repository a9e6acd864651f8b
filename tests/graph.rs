use render_graph_core::context::RenderGraphContext;
use render_graph_core::edge::{Edge, RenderGraphError, SlotInfo, SlotType};
use render_graph_core::graph::RenderGraph;
use render_graph_core::label::InternedRenderLabel;
use render_graph_core::node::{Node, NodeRunError};

#[derive(Debug, PartialEq)]
enum TestNode {
    Producer,
    Consumer,
    Sampler,
    Empty,
}

fn slot(name: &str, slot_type: SlotType) -> SlotInfo {
    SlotInfo::new(name.to_string(), slot_type)
}

impl Node for TestNode {
    fn input(&self) -> Vec<SlotInfo> {
        match self {
            TestNode::Consumer => vec![slot("in", SlotType::TextureView)],
            _ => Vec::new(),
        }
    }

    fn output(&self) -> Vec<SlotInfo> {
        match self {
            TestNode::Producer => vec![slot("out", SlotType::TextureView)],
            TestNode::Sampler => vec![slot("out", SlotType::Sampler)],
            _ => Vec::new(),
        }
    }

    fn update(&mut self) {}

    fn run(&self, _graph: &mut RenderGraphContext) -> Result<(), NodeRunError> {
        Ok(())
    }
}

fn label(id: u64) -> InternedRenderLabel {
    InternedRenderLabel::new(id)
}

fn position(order: &[InternedRenderLabel], l: InternedRenderLabel) -> usize {
    order.iter().position(|x| *x == l).unwrap()
}

#[test]
fn slot_and_node_edges_validate_and_order() {
    let (a, b, c) = (label(1), label(2), label(3));
    let mut graph = RenderGraph::new();
    graph.add_node(a, TestNode::Producer);
    graph.add_node(b, TestNode::Consumer);
    graph.add_node(c, TestNode::Empty);
    assert_eq!(graph.add_slot_edge(a, 0, b, 0), Ok(()));
    assert_eq!(graph.add_node_edge(a, c), Ok(()));
    assert!(graph.validate().is_empty());
    let order = graph.checked_execution_order().unwrap();
    assert_eq!(order.len(), 3);
    assert!(position(&order, a) < position(&order, b));
    assert!(position(&order, a) < position(&order, c));
    let sb = graph.get_node_state(b).unwrap();
    assert_eq!(
        sb.edges.get_input_slot_edge(0),
        Ok(&Edge::SlotEdge { input_node: b, input_index: 0, output_node: a, output_index: 0 })
    );
}

#[test]
fn unconnected_output_is_the_only_error() {
    let a = label(1);
    let mut graph = RenderGraph::new();
    graph.add_node(a, TestNode::Producer);
    assert_eq!(
        graph.validate(),
        vec![RenderGraphError::UnconnectedNodeOutputSlot { output_slot: 0, node: a }]
    );
    assert_eq!(
        graph.checked_execution_order(),
        Err(vec![RenderGraphError::UnconnectedNodeOutputSlot { output_slot: 0, node: a }])
    );
}

#[test]
fn validation_reports_every_unconnected_slot() {
    let mut graph = RenderGraph::new();
    graph.add_node(label(1), TestNode::Producer);
    graph.add_node(label(2), TestNode::Consumer);
    assert_eq!(
        graph.validate(),
        vec![
            RenderGraphError::UnconnectedNodeOutputSlot { output_slot: 0, node: label(1) },
            RenderGraphError::UnconnectedNodeInputSlot { input_slot: 0, node: label(2) },
        ]
    );
}

#[test]
fn edges_to_unknown_nodes_are_rejected() {
    let mut graph = RenderGraph::new();
    graph.add_node(label(1), TestNode::Empty);
    assert_eq!(graph.add_node_edge(label(9), label(1)), Err(RenderGraphError::InvalidNode(label(9))));
    assert_eq!(graph.add_node_edge(label(1), label(9)), Err(RenderGraphError::InvalidNode(label(9))));
    assert!(matches!(graph.get_node_state(label(9)), Err(RenderGraphError::InvalidNode(_))));
}

#[test]
fn duplicate_node_edge_is_rejected() {
    let mut graph = RenderGraph::new();
    graph.add_node(label(1), TestNode::Empty);
    graph.add_node(label(2), TestNode::Empty);
    assert_eq!(graph.add_node_edge(label(1), label(2)), Ok(()));
    assert_eq!(
        graph.add_node_edge(label(1), label(2)),
        Err(RenderGraphError::EdgeAlreadyExists(Edge::NodeEdge {
            input_node: label(2),
            output_node: label(1)
        }))
    );
}

#[test]
fn slot_edge_checks() {
    let (a, b, s) = (label(1), label(2), label(3));
    let mut graph = RenderGraph::new();
    graph.add_node(a, TestNode::Producer);
    graph.add_node(b, TestNode::Consumer);
    graph.add_node(s, TestNode::Sampler);
    assert_eq!(graph.add_slot_edge(a, 1, b, 0), Err(RenderGraphError::InvalidOutputNodeSlot(1)));
    assert_eq!(graph.add_slot_edge(a, 0, b, 4), Err(RenderGraphError::InvalidInputNodeSlot(4)));
    assert_eq!(
        graph.add_slot_edge(s, 0, b, 0),
        Err(RenderGraphError::MismatchedNodeSlots {
            output_node: s,
            output_slot: 0,
            input_node: b,
            input_slot: 0
        })
    );
    assert_eq!(graph.add_slot_edge(a, 0, b, 0), Ok(()));
    let e = Edge::SlotEdge { input_node: b, input_index: 0, output_node: a, output_index: 0 };
    assert_eq!(graph.add_slot_edge(a, 0, b, 0), Err(RenderGraphError::EdgeAlreadyExists(e)));
    graph.add_node(label(4), TestNode::Producer);
    assert_eq!(
        graph.add_slot_edge(label(4), 0, b, 0),
        Err(RenderGraphError::NodeInputSlotAlreadyOccupied { node: b, input_slot: 0, occupied_by_node: a })
    );
}

#[test]
fn cycle_is_rejected() {
    let mut graph = RenderGraph::new();
    graph.add_node(label(1), TestNode::Empty);
    graph.add_node(label(2), TestNode::Empty);
    graph.add_node(label(3), TestNode::Empty);
    graph.add_node_edge(label(1), label(2)).unwrap();
    graph.add_node_edge(label(2), label(3)).unwrap();
    assert!(graph.execution_order().is_ok());
    graph.add_node_edge(label(3), label(2)).unwrap();
    assert_eq!(graph.execution_order(), Err(RenderGraphError::DependencyCycle));
    assert_eq!(graph.checked_execution_order(), Err(vec![RenderGraphError::DependencyCycle]));
}

#[test]
fn replacing_a_node_drops_its_edges() {
    let mut graph = RenderGraph::new();
    graph.add_node(label(1), TestNode::Empty);
    graph.add_node(label(2), TestNode::Empty);
    graph.add_node_edge(label(1), label(2)).unwrap();
    graph.add_node(label(2), TestNode::Producer);
    let state = graph.get_node_state(label(2)).unwrap();
    assert_eq!(state.node, TestNode::Producer);
    assert!(state.edges.input_edges().is_empty());
    assert_eq!(state.output_slots.len(), 1);
}

#[test]
fn empty_graph_has_empty_order() {
    let graph: RenderGraph<TestNode> = RenderGraph::new();
    assert!(graph.validate().is_empty());
    assert_eq!(graph.execution_order(), Ok(Vec::new()));
}
