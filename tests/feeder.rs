use bevy_ecs::entity::Entity;
use render_graph_core::gpu_array::{prepare_gpu_component_array_buffers, GpuArrayBuffer};

fn entity(row: u32) -> Entity {
    Entity::from_raw_u32(row).unwrap()
}

#[test]
fn push_returns_consecutive_indices() {
    let mut buffer: GpuArrayBuffer<u32> = GpuArrayBuffer::new();
    assert_eq!(buffer.push(10), 0);
    assert_eq!(buffer.push(20), 1);
    assert_eq!(buffer.values(), &[10, 20]);
    buffer.clear();
    assert_eq!(buffer.len(), 0);
}

#[test]
fn feeder_assigns_indices_in_iteration_order() {
    let mut buffer: GpuArrayBuffer<[u32; 2]> = GpuArrayBuffer::new();
    let items = vec![(entity(5), [1, 1]), (entity(9), [2, 2]), (entity(3), [3, 3])];
    let assigned = prepare_gpu_component_array_buffers(&mut buffer, items);
    assert_eq!(assigned, vec![(entity(5), 0), (entity(9), 1), (entity(3), 2)]);
    assert_eq!(buffer.values(), &[[1, 1], [2, 2], [3, 3]]);
}

#[test]
fn second_pass_replaces_the_first() {
    let mut buffer: GpuArrayBuffer<u32> = GpuArrayBuffer::new();
    let first = vec![(entity(1), 100), (entity(2), 200), (entity(3), 300)];
    prepare_gpu_component_array_buffers(&mut buffer, first);
    assert_eq!(buffer.len(), 3);
    let second = vec![(entity(7), 700), (entity(8), 800)];
    let assigned = prepare_gpu_component_array_buffers(&mut buffer, second);
    assert_eq!(assigned, vec![(entity(7), 0), (entity(8), 1)]);
    assert_eq!(buffer.values(), &[700, 800]);
}

#[test]
fn feeder_with_no_entities_empties_the_buffer() {
    let mut buffer: GpuArrayBuffer<u32> = GpuArrayBuffer::new();
    buffer.push(1);
    let assigned = prepare_gpu_component_array_buffers(&mut buffer, Vec::new());
    assert!(assigned.is_empty());
    assert_eq!(buffer.len(), 0);
}
