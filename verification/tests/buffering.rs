use grass_ecs::command::{CommandBuffer, EntityRef};
use grass_ecs::components::{Blade, ComponentKind, ComponentValue, Position};
use grass_ecs::world::World;

fn blade(height: i64) -> ComponentValue {
    ComponentValue::Blade(Blade { height })
}

fn position(x: i64, y: i64) -> ComponentValue {
    ComponentValue::Position(Position { x, y })
}

#[test]
fn recorded_commands_are_invisible_until_flush() {
    let mut world = World::new();
    let mut buffer = CommandBuffer::new();
    buffer.spawn(vec![blade(5)]);
    assert_eq!(world.entity_count(), 0);
    buffer.flush(&mut world);
    assert_eq!(world.entity_count(), 1);
}

#[test]
fn flush_applies_commands_in_enqueue_order_and_clears_the_buffer() {
    let mut world = World::new();
    let e = world.spawn_with(&vec![blade(1)]);

    let mut buffer = CommandBuffer::new();
    buffer.add_component(EntityRef::Existing(e), blade(2));
    buffer.add_component(EntityRef::Existing(e), blade(3));
    buffer.flush(&mut world);
    // The later write wins: commands apply in enqueue order.
    match world.get_component(e, ComponentKind::Blade) {
        Some(ComponentValue::Blade(b)) => assert_eq!(b.height, 3),
        _ => panic!("growth component missing"),
    }

    // The buffer is empty after the flush: flushing again changes nothing.
    let count = world.entity_count();
    buffer.flush(&mut world);
    assert_eq!(world.entity_count(), count);
}

#[test]
fn pending_reference_addresses_the_entity_the_same_buffer_spawns() {
    let mut world = World::new();
    let mut buffer = CommandBuffer::new();
    let pending = buffer.spawn(vec![blade(4)]);
    buffer.add_component(pending, position(7, 8));
    buffer.flush(&mut world);
    assert_eq!(world.entity_count(), 1);
    let req = grass_ecs::components::KindSet { position: true, blade: true, robot: false };
    let found = world.query_entities(req);
    assert_eq!(found.len(), 1);
    match world.get_component(found[0], ComponentKind::Position) {
        Some(ComponentValue::Position(p)) => {
            assert_eq!(p.x, 7);
            assert_eq!(p.y, 8);
        },
        _ => panic!("position component missing"),
    }
}

#[test]
fn spawn_then_despawn_in_one_buffer_collapses_to_nothing() {
    let mut world = World::new();
    let keeper = world.spawn_with(&vec![blade(9)]);
    let count_before = world.entity_count();

    let mut buffer = CommandBuffer::new();
    let pending = buffer.spawn(vec![blade(2000)]);
    buffer.despawn(pending);
    buffer.flush(&mut world);

    assert_eq!(world.entity_count(), count_before);
    assert!(world.is_alive(keeper));
    // Only the untouched entity carries a growth component.
    let pairs = world.iterate(ComponentKind::Blade);
    assert_eq!(pairs.len(), 1);
    assert_eq!(pairs[0].0, keeper);
}

#[test]
fn deferred_despawn_and_removal_of_existing_entities() {
    let mut world = World::new();
    let a = world.spawn_with(&vec![blade(1), position(0, 0)]);
    let b = world.spawn_with(&vec![blade(2)]);

    let mut buffer = CommandBuffer::new();
    buffer.despawn(EntityRef::Existing(a));
    buffer.remove_component(EntityRef::Existing(b), ComponentKind::Blade);
    assert!(world.is_alive(a));
    buffer.flush(&mut world);

    assert!(!world.is_alive(a));
    assert!(world.is_alive(b));
    assert!(world.get_component(b, ComponentKind::Blade).is_none());
}

#[test]
fn unmatched_pending_reference_applies_as_no_op() {
    let mut world = World::new();
    let e = world.spawn_with(&vec![blade(6)]);
    let mut buffer = CommandBuffer::new();
    buffer.despawn(EntityRef::Pending(5));
    buffer.flush(&mut world);
    assert!(world.is_alive(e));
    assert_eq!(world.entity_count(), 1);
}

#[test]
fn despawn_of_a_stale_reference_is_rejected_quietly() {
    let mut world = World::new();
    let e = world.spawn_with(&vec![blade(6)]);
    world.despawn(e);
    let survivor = world.spawn_with(&vec![blade(8)]);
    let mut buffer = CommandBuffer::new();
    buffer.despawn(EntityRef::Existing(e));
    buffer.flush(&mut world);
    // The stale handle addresses nobody: the reused slot's entity survives.
    assert!(world.is_alive(survivor));
    assert_eq!(world.entity_count(), 1);
}
