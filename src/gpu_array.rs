use vstd::prelude::*;
use bevy_ecs::entity::Entity;

verus! {

/// The components of `items`, in order.
pub open spec fn components_of<C>(items: Seq<(Entity, C)>) -> Seq<C> {
    Seq::new(items.len(), |i: int| items[i].1)
}

/// The CPU side of a growable array that is uploaded to the GPU: each value
/// pushed gets the next index.
pub struct GpuArrayBuffer<T> {
    values: Vec<T>,
}

impl<T> View for GpuArrayBuffer<T> {
    type V = Seq<T>;

    closed spec fn view(&self) -> Seq<T> {
        self.values@
    }
}

impl<T> GpuArrayBuffer<T> {
    /// An empty array.
    pub fn new() -> (r: Self)
        ensures
            r@ == Seq::<T>::empty(),
    {
        GpuArrayBuffer { values: Vec::new() }
    }

    /// Empties the array.
    pub fn clear(&mut self)
        ensures
            final(self)@ == Seq::<T>::empty(),
    {
        self.values.clear();
    }

    /// Appends `value` and returns the index it was given.
    pub fn push(&mut self, value: T) -> (r: u32)
        requires
            old(self)@.len() < u32::MAX,
        ensures
            r == old(self)@.len(),
            final(self)@ == old(self)@.push(value),
    {
        let index = self.values.len() as u32;
        self.values.push(value);
        index
    }

    /// The number of values in the array.
    pub fn len(&self) -> (r: usize)
        ensures
            r == self@.len(),
    {
        self.values.len()
    }

    /// The values in the array, in index order: what an upload writes.
    pub fn values(&self) -> (r: &[T])
        ensures
            r@ == self@,
    {
        self.values.as_slice()
    }
}

/// One frame's pass of the per-entity array feeder: empties `buffer`, then
/// pushes the component of each entity of `components` in order, and returns
/// each entity with the index its component was given.
///
/// What the buffer holds afterwards depends on `components` alone: nothing
/// from an earlier pass survives.
pub fn prepare_gpu_component_array_buffers<C>(
    buffer: &mut GpuArrayBuffer<C>,
    components: Vec<(Entity, C)>,
) -> (r: Vec<(Entity, u32)>)
    requires
        components@.len() < u32::MAX,
    ensures
        final(buffer)@ == components_of(components@),
        r@.len() == components@.len(),
        forall|i: int| 0 <= i < r@.len() ==> (#[trigger] r@[i]).0 == components@[i].0 && r@[i].1 == i,
        final(buffer)@.len() == components@.len(),
        forall|i: int| 0 <= i < r@.len() ==> (#[trigger] r@[i]).1 < components@.len(),
        forall|i: int, j: int|
            0 <= i < r@.len() && 0 <= j < r@.len() && i != j ==> (#[trigger] r@[i]).1 != (#[trigger] r@[j]).1,
{
    let ghost orig = components@;
    let n = components.len();
    buffer.clear();
    let mut rest = components;
    let mut reversed: Vec<(Entity, C)> = Vec::new();
    while rest.len() > 0
        invariant
            n == orig.len(),
            rest@ == orig.take(rest@.len() as int),
            reversed@.len() + rest@.len() == n,
            forall|j: int| 0 <= j < reversed@.len() ==> #[trigger] reversed@[j] == orig[n - 1 - j],
        decreases rest@.len(),
    {
        let item = rest.pop().unwrap();
        reversed.push(item);
        assert(rest@ =~= orig.take(rest@.len() as int));
    }
    let mut entities: Vec<(Entity, u32)> = Vec::new();
    while reversed.len() > 0
        invariant
            n == orig.len(),
            n < u32::MAX,
            reversed@.len() + entities@.len() == n,
            forall|j: int| 0 <= j < reversed@.len() ==> #[trigger] reversed@[j] == orig[n - 1 - j],
            buffer@ == components_of(orig.take(entities@.len() as int)),
            forall|i: int| 0 <= i < entities@.len() ==> (#[trigger] entities@[i]).0 == orig[i].0 && entities@[i].1 == i,
        decreases reversed@.len(),
    {
        let k = entities.len();
        let ghost last = reversed@.len() - 1;
        assert(reversed@[last] == orig[n - 1 - last]);
        let (entity, component) = reversed.pop().unwrap();
        let index = buffer.push(component);
        entities.push((entity, index));
        assert(components_of(orig.take(k + 1)) =~= components_of(orig.take(k as int)).push(orig[k as int].1));
    }
    assert(orig.take(n as int) =~= orig);
    entities
}

} // verus!
