use grass_ecs::components::{Blade, ComponentKind, ComponentValue, KindSet, Position, Robot};
use grass_ecs::world::World;

fn blade(height: i64) -> ComponentValue {
    ComponentValue::Blade(Blade { height })
}

fn position(x: i64, y: i64) -> ComponentValue {
    ComponentValue::Position(Position { x, y })
}

fn robot(radius: i64, cutting_height: i64) -> ComponentValue {
    ComponentValue::Robot(Robot { radius, cutting_height })
}

#[test]
fn spawned_entity_is_alive_and_carries_its_components() {
    let mut world = World::new();
    let e = world.spawn_with(&vec![blade(1000), position(3, 4)]);
    assert!(world.is_alive(e));
    assert_eq!(world.entity_count(), 1);
    match world.get_component(e, ComponentKind::Blade) {
        Some(ComponentValue::Blade(b)) => assert_eq!(b.height, 1000),
        _ => panic!("growth component missing"),
    }
    match world.get_component(e, ComponentKind::Position) {
        Some(ComponentValue::Position(p)) => {
            assert_eq!(p.x, 3);
            assert_eq!(p.y, 4);
        },
        _ => panic!("position component missing"),
    }
    assert!(world.get_component(e, ComponentKind::Robot).is_none());
}

#[test]
fn missing_component_reads_as_absent() {
    let mut world = World::new();
    let e = world.spawn_with(&vec![position(0, 0)]);
    assert!(world.get_component(e, ComponentKind::Blade).is_none());
    assert!(!world.remove_component(e, ComponentKind::Blade));
}

#[test]
fn writes_to_a_stale_handle_are_rejected() {
    let mut world = World::new();
    let e = world.spawn_with(&vec![blade(5)]);
    assert!(world.despawn(e));
    assert!(!world.is_alive(e));
    assert!(!world.set_component(e, blade(7)));
    assert!(!world.remove_component(e, ComponentKind::Blade));
    assert!(world.get_component(e, ComponentKind::Blade).is_none());
    assert!(!world.despawn(e));
}

#[test]
fn despawn_removes_all_components_with_the_entity() {
    let mut world = World::new();
    let e = world.spawn_with(&vec![blade(5), position(1, 2), robot(9, 9)]);
    assert!(world.despawn(e));
    assert_eq!(world.entity_count(), 0);
    assert!(world.get_component(e, ComponentKind::Blade).is_none());
    assert!(world.get_component(e, ComponentKind::Position).is_none());
    assert!(world.get_component(e, ComponentKind::Robot).is_none());
}

#[test]
fn stale_handle_does_not_resolve_to_a_reused_slot() {
    let mut world = World::new();
    let old = world.spawn_with(&vec![blade(5)]);
    assert!(world.despawn(old));
    let newer = world.spawn_with(&vec![blade(77)]);
    // The slot is recycled, but the old handle must not address the new data.
    assert_eq!(newer.slot, old.slot);
    assert!(!world.is_alive(old));
    assert!(world.is_alive(newer));
    assert!(world.get_component(old, ComponentKind::Blade).is_none());
    match world.get_component(newer, ComponentKind::Blade) {
        Some(ComponentValue::Blade(b)) => assert_eq!(b.height, 77),
        _ => panic!("growth component missing"),
    }
}

#[test]
fn set_component_overwrites_in_place() {
    let mut world = World::new();
    let e = world.spawn_with(&vec![blade(1)]);
    assert!(world.set_component(e, blade(42)));
    match world.get_component(e, ComponentKind::Blade) {
        Some(ComponentValue::Blade(b)) => assert_eq!(b.height, 42),
        _ => panic!("growth component missing"),
    }
    assert!(world.remove_component(e, ComponentKind::Blade));
    assert!(world.get_component(e, ComponentKind::Blade).is_none());
    assert!(world.is_alive(e));
}

#[test]
fn query_yields_exactly_the_entities_with_the_requested_types() {
    let mut world = World::new();
    let with_blade = world.spawn_with(&vec![blade(1)]);
    let with_both = world.spawn_with(&vec![blade(2), position(0, 0)]);
    let with_position = world.spawn_with(&vec![position(1, 1)]);
    let dead = world.spawn_with(&vec![blade(3)]);
    world.despawn(dead);

    let req = KindSet { position: false, blade: true, robot: false };
    let found = world.query_entities(req);
    assert_eq!(found.len(), 2);
    assert!(found.contains(&with_blade));
    assert!(found.contains(&with_both));
    assert!(!found.contains(&with_position));
    assert!(!found.contains(&dead));

    let both = KindSet { position: true, blade: true, robot: false };
    let found_both = world.query_entities(both);
    assert_eq!(found_both.len(), 1);
    assert!(found_both.contains(&with_both));

    let none = world.query_entities(KindSet::empty());
    assert_eq!(none.len(), 3);
}

#[test]
fn iterate_pairs_each_live_entity_with_its_value_once() {
    let mut world = World::new();
    let a = world.spawn_with(&vec![blade(10)]);
    let _skip = world.spawn_with(&vec![position(0, 0)]);
    let b = world.spawn_with(&vec![blade(20)]);
    let pairs = world.iterate(ComponentKind::Blade);
    assert_eq!(pairs.len(), 2);
    assert_eq!(pairs[0].0, a);
    assert_eq!(pairs[1].0, b);
    match (pairs[0].1, pairs[1].1) {
        (ComponentValue::Blade(x), ComponentValue::Blade(y)) => {
            assert_eq!(x.height, 10);
            assert_eq!(y.height, 20);
        },
        _ => panic!("iterate returned a value of the wrong type"),
    }
}

#[test]
fn archetype_lists_exactly_the_attached_types() {
    let mut world = World::new();
    let e = world.spawn_with(&vec![blade(1), position(2, 3)]);
    let arch = world.archetype_of(e);
    assert!(arch.blade && arch.position && !arch.robot);

    world.remove_component(e, ComponentKind::Blade);
    let arch = world.archetype_of(e);
    assert!(!arch.blade && arch.position);

    world.despawn(e);
    let arch = world.archetype_of(e);
    assert!(!arch.blade && !arch.position && !arch.robot);
}

#[test]
fn entity_count_tracks_spawns_and_despawns() {
    let mut world = World::new();
    assert_eq!(world.entity_count(), 0);
    let a = world.spawn_empty();
    let _b = world.spawn_empty();
    assert_eq!(world.entity_count(), 2);
    world.despawn(a);
    assert_eq!(world.entity_count(), 1);
}
