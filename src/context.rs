use vstd::prelude::*;
use crate::edge::{SlotInfo, SlotType};
use crate::label::InternedRenderSubGraph;
use bevy_ecs::entity::Entity;

verus! {

#[verifier::external_type_specification]
#[verifier::external_body]
pub struct ExEntity(Entity);

/// A value that flows along a slot edge. GPU resources are named by the
/// handle that the renderer gave them.
#[derive(Clone, Copy, Debug)]
pub enum SlotValue {
    Buffer(u64),
    TextureView(u64),
    Sampler(u64),
    Entity(Entity),
}

/// The kind of value that `v` is.
pub open spec fn slot_type_of(v: SlotValue) -> SlotType {
    match v {
        SlotValue::Buffer(_) => SlotType::Buffer,
        SlotValue::TextureView(_) => SlotType::TextureView,
        SlotValue::Sampler(_) => SlotType::Sampler,
        SlotValue::Entity(_) => SlotType::Entity,
    }
}

impl SlotValue {
    /// The kind of value that this is.
    pub fn slot_type(&self) -> (r: SlotType)
        ensures
            r == slot_type_of(*self),
    {
        match self {
            SlotValue::Buffer(_) => SlotType::Buffer,
            SlotValue::TextureView(_) => SlotType::TextureView,
            SlotValue::Sampler(_) => SlotType::Sampler,
            SlotValue::Entity(_) => SlotType::Entity,
        }
    }
}

/// A sub-graph that a node can ask to run, with the slot types that its
/// input node declares (`None`: it has no input node).
#[derive(Clone, Debug)]
pub struct SubGraphInputs {
    pub name: InternedRenderSubGraph,
    pub input_types: Option<Vec<SlotType>>,
}

/// A request, made while a node ran, to run a sub-graph next.
#[derive(Clone, Debug)]
pub struct RunSubGraph {
    pub sub_graph: InternedRenderSubGraph,
    pub inputs: Vec<SlotValue>,
    pub view_entity: Option<Entity>,
}

#[derive(Clone, Copy, Debug, PartialEq, Eq, Structural)]
pub enum InputSlotError {
    InvalidSlot(usize),
}

#[derive(Clone, Copy, Debug, PartialEq, Eq, Structural)]
pub enum OutputSlotError {
    InvalidSlot(usize),
    MismatchedSlotType { index: usize, expected: SlotType, actual: SlotType },
}

#[derive(Clone, Copy, Debug, PartialEq, Eq, Structural)]
pub enum RunSubGraphError {
    MissingSubGraph(InternedRenderSubGraph),
    SubGraphHasNoInputs(InternedRenderSubGraph),
    MissingInput { slot_index: usize, graph_name: InternedRenderSubGraph },
    MismatchedInputSlotType {
        graph_name: InternedRenderSubGraph,
        slot_index: usize,
        expected: SlotType,
        actual: SlotType,
    },
}

#[derive(Clone, Copy, Debug, PartialEq, Eq, Structural)]
pub enum DrawError {
    RenderCommandFailure,
    InvalidViewQuery,
    InvalidItemQuery,
    ViewEntityNotFound,
}

/// Whether `inputs` fit the declared slot types `types`, position by position.
pub open spec fn inputs_fit(types: Seq<SlotType>, inputs: Seq<SlotValue>) -> bool {
    &&& types.len() <= inputs.len()
    &&& forall|i: int| 0 <= i < types.len() ==> slot_type_of(#[trigger] inputs[i]) == types[i]
}

/// Whether `entry` names sub-graph `name`.
pub open spec fn names(entry: SubGraphInputs, name: InternedRenderSubGraph) -> bool {
    entry.name == name
}

/// What `run_sub_graph` answers for the sub-graph `entry` and `inputs`.
pub open spec fn sub_graph_check(
    entry: Option<SubGraphInputs>,
    name: InternedRenderSubGraph,
    inputs: Seq<SlotValue>,
) -> Result<(), RunSubGraphError> {
    match entry {
        None => Err(RunSubGraphError::MissingSubGraph(name)),
        Some(e) => match e.input_types {
            None => if inputs.len() == 0 {
                Ok(())
            } else {
                Err(RunSubGraphError::SubGraphHasNoInputs(name))
            },
            Some(types) => input_check(types@, name, inputs, 0),
        },
    }
}

/// The first slot from `i` on whose input is missing or of the wrong type.
pub open spec fn input_check(
    types: Seq<SlotType>,
    name: InternedRenderSubGraph,
    inputs: Seq<SlotValue>,
    i: int,
) -> Result<(), RunSubGraphError>
    decreases types.len() - i,
{
    if i < 0 || i >= types.len() {
        Ok(())
    } else if i >= inputs.len() {
        Err(RunSubGraphError::MissingInput { slot_index: i as usize, graph_name: name })
    } else if slot_type_of(inputs[i]) != types[i] {
        Err(
            RunSubGraphError::MismatchedInputSlotType {
                graph_name: name,
                slot_index: i as usize,
                expected: types[i],
                actual: slot_type_of(inputs[i]),
            },
        )
    } else {
        input_check(types, name, inputs, i + 1)
    }
}

/// The first entry of `graphs` that names `name`.
pub open spec fn find_sub_graph(graphs: Seq<SubGraphInputs>, name: InternedRenderSubGraph) -> Option<SubGraphInputs>
    decreases graphs.len(),
{
    if graphs.len() == 0 {
        None
    } else if graphs[0].name == name {
        Some(graphs[0])
    } else {
        find_sub_graph(graphs.drop_first(), name)
    }
}

/// What one node sees while it runs: its resolved inputs, the outputs it
/// has written, the view it runs for, and the sub-graphs it asked to run.
pub struct RenderGraphContext {
    pub inputs: Vec<SlotValue>,
    pub output_slots: Vec<SlotInfo>,
    pub outputs: Vec<Option<SlotValue>>,
    pub view_entity: Option<Entity>,
    pub sub_graphs: Vec<SubGraphInputs>,
    pub run_sub_graphs: Vec<RunSubGraph>,
}

impl RenderGraphContext {
    /// Whether every output slot has a place for its value.
    pub open spec fn wf(&self) -> bool {
        self.outputs@.len() == self.output_slots@.len()
    }

    /// The context of a node with resolved `inputs` and the declared
    /// `output_slots`, none of them written yet.
    pub fn new(
        inputs: Vec<SlotValue>,
        output_slots: Vec<SlotInfo>,
        view_entity: Option<Entity>,
        sub_graphs: Vec<SubGraphInputs>,
    ) -> (r: Self)
        ensures
            r.wf(),
            r.inputs@ == inputs@,
            r.output_slots@ == output_slots@,
            r.outputs@ == Seq::new(output_slots@.len(), |i: int| None::<SlotValue>),
            r.view_entity == view_entity,
            r.sub_graphs@ == sub_graphs@,
            r.run_sub_graphs@.len() == 0,
    {
        let mut outputs: Vec<Option<SlotValue>> = Vec::new();
        let mut i: usize = 0;
        while i < output_slots.len()
            invariant
                i <= output_slots@.len(),
                outputs@ == Seq::new(i as nat, |k: int| None::<SlotValue>),
            decreases output_slots@.len() - i,
        {
            outputs.push(None);
            i += 1;
            assert(outputs@ =~= Seq::new(i as nat, |k: int| None::<SlotValue>));
        }
        RenderGraphContext {
            inputs,
            output_slots,
            outputs,
            view_entity,
            sub_graphs,
            run_sub_graphs: Vec::new(),
        }
    }

    /// The resolved value of input slot `index`.
    pub fn get_input(&self, index: usize) -> (r: Result<&SlotValue, InputSlotError>)
        ensures
            index < self.inputs@.len() ==> r == Ok::<&SlotValue, InputSlotError>(&self.inputs@[index as int]),
            index >= self.inputs@.len() ==> r == Err::<&SlotValue, InputSlotError>(InputSlotError::InvalidSlot(index)),
    {
        if index < self.inputs.len() {
            Ok(&self.inputs[index])
        } else {
            Err(InputSlotError::InvalidSlot(index))
        }
    }

    /// Writes `value` to output slot `index`, whose declared type it must have.
    pub fn set_output(&mut self, index: usize, value: SlotValue) -> (r: Result<(), OutputSlotError>)
        requires
            old(self).wf(),
        ensures
            final(self).wf(),
            final(self).inputs == old(self).inputs,
            final(self).output_slots == old(self).output_slots,
            final(self).view_entity == old(self).view_entity,
            final(self).sub_graphs == old(self).sub_graphs,
            final(self).run_sub_graphs == old(self).run_sub_graphs,
            index >= old(self).output_slots@.len() ==> r == Err::<(), OutputSlotError>(OutputSlotError::InvalidSlot(index))
                && final(self).outputs == old(self).outputs,
            index < old(self).output_slots@.len() && old(self).output_slots@[index as int].slot_type != slot_type_of(value)
                ==> r == Err::<(), OutputSlotError>(OutputSlotError::MismatchedSlotType {
                    index,
                    expected: old(self).output_slots@[index as int].slot_type,
                    actual: slot_type_of(value),
                }) && final(self).outputs == old(self).outputs,
            index < old(self).output_slots@.len() && old(self).output_slots@[index as int].slot_type == slot_type_of(value)
                ==> r is Ok && final(self).outputs@ == old(self).outputs@.update(index as int, Some(value)),
    {
        if index >= self.output_slots.len() {
            return Err(OutputSlotError::InvalidSlot(index));
        }
        let expected = self.output_slots[index].slot_type;
        let actual = value.slot_type();
        if expected != actual {
            return Err(OutputSlotError::MismatchedSlotType { index, expected, actual });
        }
        self.outputs.set(index, Some(value));
        Ok(())
    }

    /// The view entity this node runs for.
    pub fn get_view_entity(&self) -> (r: Option<Entity>)
        ensures
            r == self.view_entity,
    {
        self.view_entity
    }

    /// The view entity this node runs for; the caller knows there is one.
    pub fn view_entity(&self) -> (r: Entity)
        requires
            self.view_entity is Some,
        ensures
            Some(r) == self.view_entity,
    {
        self.view_entity.unwrap()
    }

    /// Asks for sub-graph `name` to run with `inputs`, once this node is
    /// done. The sub-graph must exist and `inputs` must fit the slots of its
    /// input node; a sub-graph without an input node takes no inputs.
    pub fn run_sub_graph(
        &mut self,
        name: InternedRenderSubGraph,
        inputs: Vec<SlotValue>,
        view_entity: Option<Entity>,
    ) -> (r: Result<(), RunSubGraphError>)
        ensures
            final(self).inputs == old(self).inputs,
            final(self).output_slots == old(self).output_slots,
            final(self).outputs == old(self).outputs,
            final(self).view_entity == old(self).view_entity,
            final(self).sub_graphs == old(self).sub_graphs,
            r == sub_graph_check(find_sub_graph(old(self).sub_graphs@, name), name, inputs@),
            r is Ok ==> final(self).run_sub_graphs@ == old(self).run_sub_graphs@.push(
                RunSubGraph { sub_graph: name, inputs, view_entity },
            ),
            r is Err ==> final(self).run_sub_graphs == old(self).run_sub_graphs,
    {
        let index = match position_of_sub_graph(&self.sub_graphs, name) {
            None => {
                return Err(RunSubGraphError::MissingSubGraph(name));
            },
            Some(index) => index,
        };
        match &self.sub_graphs[index].input_types {
            None => {
                if inputs.len() != 0 {
                    return Err(RunSubGraphError::SubGraphHasNoInputs(name));
                }
            },
            Some(types) => {
                assert(self.sub_graphs@[index as int].input_types == Some(*types));
                assert(sub_graph_check(find_sub_graph(self.sub_graphs@, name), name, inputs@) == input_check(types@, name, inputs@, 0));
                let mut i: usize = 0;
                while i < types.len()
                    invariant
                        i <= types@.len(),
                        input_check(types@, name, inputs@, 0) == input_check(types@, name, inputs@, i as int),
                        sub_graph_check(find_sub_graph(self.sub_graphs@, name), name, inputs@)
                            == input_check(types@, name, inputs@, 0),
                    decreases types@.len() - i,
                {
                    if i >= inputs.len() {
                        return Err(RunSubGraphError::MissingInput { slot_index: i, graph_name: name });
                    }
                    let actual = inputs[i].slot_type();
                    if actual != types[i] {
                        return Err(
                            RunSubGraphError::MismatchedInputSlotType {
                                graph_name: name,
                                slot_index: i,
                                expected: types[i],
                                actual,
                            },
                        );
                    }
                    i += 1;
                }
            },
        }
        self.run_sub_graphs.push(RunSubGraph { sub_graph: name, inputs, view_entity });
        Ok(())
    }
}

/// The position of the first entry of `graphs` that names `name`.
fn position_of_sub_graph(graphs: &Vec<SubGraphInputs>, name: InternedRenderSubGraph) -> (r: Option<usize>)
    ensures
        match r {
            Some(g) => g < graphs@.len() && find_sub_graph(graphs@, name) == Some(graphs@[g as int]),
            None => find_sub_graph(graphs@, name) is None,
        },
{
    let mut g: usize = 0;
    while g < graphs.len()
        invariant
            g <= graphs@.len(),
            forall|k: int| 0 <= k < g ==> graphs@[k].name != name,
        decreases graphs@.len() - g,
    {
        if graphs[g].name == name {
            proof {
                lemma_find_sub_graph_skip(graphs@, name, g as int);
            }
            return Some(g);
        }
        g += 1;
    }
    proof {
        lemma_find_sub_graph_skip(graphs@, name, g as int);
    }
    None
}

/// Entries before the first one that names `name` do not change the search.
proof fn lemma_find_sub_graph_skip(graphs: Seq<SubGraphInputs>, name: InternedRenderSubGraph, g: int)
    requires
        0 <= g <= graphs.len(),
        forall|k: int| 0 <= k < g ==> graphs[k].name != name,
    ensures
        find_sub_graph(graphs, name) == find_sub_graph(graphs.skip(g), name),
    decreases g,
{
    if g == 0 {
        assert(graphs.skip(0) =~= graphs);
    } else {
        let rest = graphs.drop_first();
        assert forall|k: int| 0 <= k < g - 1 implies rest[k].name != name by {
            assert(rest[k] == graphs[k + 1]);
        }
        lemma_find_sub_graph_skip(rest, name, g - 1);
        assert(rest.skip(g - 1) =~= graphs.skip(g));
    }
}

} // verus!
