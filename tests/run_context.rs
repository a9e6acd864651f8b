use bevy_ecs::entity::Entity;
use render_graph_core::context::{
    OutputSlotError, RenderGraphContext, RunSubGraphError, SlotValue, SubGraphInputs, InputSlotError,
};
use render_graph_core::edge::{SlotInfo, SlotType};
use render_graph_core::label::InternedRenderSubGraph;
use render_graph_core::node::{
    EmptyNode, Node, NodeRunError, RunGraphOnViewNode, ViewNode, ViewNodeRunner,
};

fn entity(row: u32) -> Entity {
    Entity::from_raw_u32(row).unwrap()
}

fn sub_graph(id: u64) -> InternedRenderSubGraph {
    InternedRenderSubGraph::new(id)
}

fn context(view: Option<Entity>) -> RenderGraphContext {
    RenderGraphContext::new(
        vec![SlotValue::Buffer(7)],
        vec![SlotInfo::new("out".to_string(), SlotType::TextureView)],
        view,
        vec![
            SubGraphInputs { name: sub_graph(1), input_types: None },
            SubGraphInputs { name: sub_graph(2), input_types: Some(vec![SlotType::Entity]) },
        ],
    )
}

#[test]
fn inputs_resolve_by_index() {
    let ctx = context(None);
    assert!(matches!(ctx.get_input(0), Ok(SlotValue::Buffer(7))));
    assert!(matches!(ctx.get_input(1), Err(InputSlotError::InvalidSlot(1))));
}

#[test]
fn outputs_are_checked_by_index_and_type() {
    let mut ctx = context(None);
    assert_eq!(ctx.outputs.len(), 1);
    assert!(ctx.outputs[0].is_none());
    assert_eq!(ctx.set_output(3, SlotValue::TextureView(1)), Err(OutputSlotError::InvalidSlot(3)));
    assert_eq!(
        ctx.set_output(0, SlotValue::Sampler(1)),
        Err(OutputSlotError::MismatchedSlotType {
            index: 0,
            expected: SlotType::TextureView,
            actual: SlotType::Sampler
        })
    );
    assert!(ctx.outputs[0].is_none());
    assert_eq!(ctx.set_output(0, SlotValue::TextureView(5)), Ok(()));
    assert!(matches!(ctx.outputs[0], Some(SlotValue::TextureView(5))));
}

#[test]
fn sub_graph_requests_are_checked() {
    let mut ctx = context(None);
    let missing = sub_graph(9);
    assert_eq!(ctx.run_sub_graph(missing, vec![], None), Err(RunSubGraphError::MissingSubGraph(missing)));
    assert_eq!(
        ctx.run_sub_graph(sub_graph(1), vec![SlotValue::Buffer(1)], None),
        Err(RunSubGraphError::SubGraphHasNoInputs(sub_graph(1)))
    );
    assert_eq!(
        ctx.run_sub_graph(sub_graph(2), vec![], None),
        Err(RunSubGraphError::MissingInput { slot_index: 0, graph_name: sub_graph(2) })
    );
    assert_eq!(
        ctx.run_sub_graph(sub_graph(2), vec![SlotValue::Buffer(1)], None),
        Err(RunSubGraphError::MismatchedInputSlotType {
            graph_name: sub_graph(2),
            slot_index: 0,
            expected: SlotType::Entity,
            actual: SlotType::Buffer
        })
    );
    assert!(ctx.run_sub_graphs.is_empty());
    assert_eq!(ctx.run_sub_graph(sub_graph(2), vec![SlotValue::Entity(entity(3))], Some(entity(4))), Ok(()));
    assert_eq!(ctx.run_sub_graphs.len(), 1);
    assert_eq!(ctx.run_sub_graphs[0].sub_graph, sub_graph(2));
    assert_eq!(ctx.run_sub_graphs[0].view_entity, Some(entity(4)));
}

#[test]
fn empty_node_does_nothing() {
    let mut ctx = context(Some(entity(1)));
    let node = EmptyNode;
    assert!(node.input().is_empty());
    assert!(node.output().is_empty());
    assert_eq!(node.run(&mut ctx), Ok(()));
    assert!(ctx.run_sub_graphs.is_empty());
    assert!(ctx.outputs[0].is_none());
}

#[test]
fn run_graph_on_view_queues_sub_graph_for_the_view() {
    let mut ctx = context(Some(entity(8)));
    let node = RunGraphOnViewNode::new(sub_graph(1));
    assert_eq!(node.run(&mut ctx), Ok(()));
    assert_eq!(ctx.run_sub_graphs.len(), 1);
    assert_eq!(ctx.run_sub_graphs[0].sub_graph, sub_graph(1));
    assert!(ctx.run_sub_graphs[0].inputs.is_empty());
    assert_eq!(ctx.run_sub_graphs[0].view_entity, Some(entity(8)));
    assert_eq!(ctx.view_entity(), entity(8));
}

#[test]
fn run_graph_on_view_reports_missing_sub_graph() {
    let mut ctx = context(Some(entity(8)));
    let node = RunGraphOnViewNode::new(sub_graph(5));
    assert_eq!(
        node.run(&mut ctx),
        Err(NodeRunError::RunSubGraphError(RunSubGraphError::MissingSubGraph(sub_graph(5))))
    );
    assert!(ctx.run_sub_graphs.is_empty());
}

struct WriteColor {
    updates: u32,
}

impl ViewNode for WriteColor {
    type ViewQueryItem = u64;

    fn update(&mut self) {
        self.updates += 1;
    }

    fn run(&self, graph: &mut RenderGraphContext, view_query: u64) -> Result<(), NodeRunError> {
        graph.set_output(0, SlotValue::TextureView(view_query)).map_err(NodeRunError::OutputSlotError)
    }
}

#[test]
fn view_node_is_skipped_when_the_view_does_not_match() {
    let runner = ViewNodeRunner::new(WriteColor { updates: 0 });
    let mut ctx = context(Some(entity(2)));
    assert_eq!(runner.run(&mut ctx, None), Ok(()));
    assert!(ctx.outputs[0].is_none());
    assert!(ctx.run_sub_graphs.is_empty());
}

#[test]
fn view_node_runs_when_the_view_matches() {
    let mut runner = ViewNodeRunner::new(WriteColor { updates: 0 });
    runner.update();
    assert_eq!(runner.node.updates, 1);
    let mut ctx = context(Some(entity(2)));
    assert_eq!(runner.run(&mut ctx, Some(11)), Ok(()));
    assert!(matches!(ctx.outputs[0], Some(SlotValue::TextureView(11))));
}

#[test]
fn slot_values_know_their_type() {
    assert_eq!(SlotValue::Buffer(0).slot_type(), SlotType::Buffer);
    assert_eq!(SlotValue::TextureView(0).slot_type(), SlotType::TextureView);
    assert_eq!(SlotValue::Sampler(0).slot_type(), SlotType::Sampler);
    assert_eq!(SlotValue::Entity(entity(0)).slot_type(), SlotType::Entity);
    let ctx = context(None);
    assert_eq!(ctx.get_view_entity(), None);
}
