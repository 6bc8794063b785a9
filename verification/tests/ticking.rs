use grass_ecs::components::{
    Blade, ComponentKind, ComponentValue, KindSet, Position, Robot, GROWTH_STEP, UNIT,
};
use grass_ecs::host::{
    initialize_world, tick, ConitueToken, GlProfile, BLADE_START_HEIGHT, ROBOT_CUTTING_HEIGHT,
    ROBOT_RADIUS,
};
use grass_ecs::schedule::{grass_grow, setup_systems, Access, Schedule, SystemKind};
use grass_ecs::world::World;

fn blade(height: i64) -> ComponentValue {
    ComponentValue::Blade(Blade { height })
}

fn blade_height(world: &World, e: grass_ecs::entity::Entity) -> i64 {
    match world.get_component(e, ComponentKind::Blade) {
        Some(ComponentValue::Blade(b)) => b.height,
        _ => panic!("growth component missing"),
    }
}

#[test]
fn growth_adds_one_step_per_tick_whatever_else_the_entity_carries() {
    let mut world = World::new();
    let plain = world.spawn_with(&vec![blade(500)]);
    let decorated = world.spawn_with(&vec![
        blade(500),
        ComponentValue::Position(Position { x: 1, y: 2 }),
        ComponentValue::Robot(Robot { radius: 3, cutting_height: 4 }),
    ]);
    let schedule = setup_systems();
    for _ in 0..3 {
        schedule.execute(&mut world);
    }
    assert_eq!(blade_height(&world, plain), 500 + 3 * GROWTH_STEP);
    assert_eq!(blade_height(&world, decorated), 500 + 3 * GROWTH_STEP);
}

#[test]
fn growth_saturates_at_the_largest_representable_height() {
    let mut world = World::new();
    let e = world.spawn_with(&vec![blade(i64::MAX - 1)]);
    grass_grow(&mut world);
    assert_eq!(blade_height(&world, e), i64::MAX);
    grass_grow(&mut world);
    assert_eq!(blade_height(&world, e), i64::MAX);
}

#[test]
fn empty_schedule_leaves_the_world_unchanged() {
    let mut world = World::new();
    let e = world.spawn_with(&vec![blade(123)]);
    let schedule = Schedule::build(Vec::new());
    schedule.execute(&mut world);
    assert_eq!(world.entity_count(), 1);
    assert!(world.is_alive(e));
    assert_eq!(blade_height(&world, e), 123);
}

#[test]
fn seeded_world_after_five_ticks() {
    let mut world = initialize_world();
    assert_eq!(world.entity_count(), 101);

    let schedule = setup_systems();
    for _ in 0..5 {
        schedule.execute(&mut world);
    }

    // Every growth entity went from one unit to six.
    let blades = world.iterate(ComponentKind::Blade);
    assert_eq!(blades.len(), 100);
    for (_, value) in blades {
        match value {
            ComponentValue::Blade(b) => assert_eq!(b.height, 6 * UNIT),
            _ => panic!("iterate returned a value of the wrong type"),
        }
    }

    // The mobile actor is untouched: no system reads or writes it.
    let actors = world.iterate(ComponentKind::Robot);
    assert_eq!(actors.len(), 1);
    match actors[0].1 {
        ComponentValue::Robot(r) => {
            assert_eq!(r.radius, ROBOT_RADIUS);
            assert_eq!(r.cutting_height, ROBOT_CUTTING_HEIGHT);
        },
        _ => panic!("iterate returned a value of the wrong type"),
    }

    assert_eq!(world.entity_count(), 101);
}

#[test]
fn seeded_world_layout() {
    let world = initialize_world();
    assert_eq!(world.entity_count(), 101);
    assert_eq!(BLADE_START_HEIGHT, UNIT);

    // One actor of radius one unit, standing at the center.
    let actors = world.query_entities(KindSet { position: true, blade: false, robot: true });
    assert_eq!(actors.len(), 1);

    // A hundred growth entities on the grid, each at a distinct coordinate.
    let blades = world.query_entities(KindSet { position: true, blade: true, robot: false });
    assert_eq!(blades.len(), 100);
    let mut coordinates: Vec<(i64, i64)> = Vec::new();
    for e in blades {
        match world.get_component(e, ComponentKind::Position) {
            Some(ComponentValue::Position(p)) => {
                assert!(p.x % UNIT == 0 && p.y % UNIT == 0);
                assert!(p.x / UNIT < 10 && p.y / UNIT < 10);
                assert!(!coordinates.contains(&(p.x, p.y)));
                coordinates.push((p.x, p.y));
            },
            _ => panic!("position component missing"),
        }
        assert_eq!(blade_height(&world, e), UNIT);
    }
}

#[test]
fn tick_executes_the_schedule_until_quit_is_requested() {
    let mut world = World::new();
    let e = world.spawn_with(&vec![blade(0)]);
    let schedule = setup_systems();

    let token = tick(&mut world, &schedule, false);
    assert!(!token.should_terminate());
    assert!(matches!(token, ConitueToken::Continue));
    assert_eq!(blade_height(&world, e), GROWTH_STEP);

    let token = tick(&mut world, &schedule, true);
    assert!(token.should_terminate());
    assert!(matches!(token, ConitueToken::Terminate));
    // A quit request runs nothing.
    assert_eq!(blade_height(&world, e), GROWTH_STEP);
}

#[test]
fn access_compatibility_lets_readers_share_and_writers_exclude() {
    let reads_blade = Access {
        reads: KindSet { position: false, blade: true, robot: false },
        writes: KindSet::empty(),
    };
    let writes_blade = Access {
        reads: KindSet::empty(),
        writes: KindSet { position: false, blade: true, robot: false },
    };
    let writes_position = Access {
        reads: KindSet::empty(),
        writes: KindSet { position: true, blade: false, robot: false },
    };
    assert!(reads_blade.compatible(reads_blade));
    assert!(!writes_blade.compatible(writes_blade));
    assert!(!writes_blade.compatible(reads_blade));
    assert!(!reads_blade.compatible(writes_blade));
    assert!(writes_blade.compatible(writes_position));

    let growth = SystemKind::GrassGrow.declared_access();
    assert!(!growth.compatible(growth));
}

#[test]
fn context_params_follow_the_chosen_profile() {
    assert_eq!(GlProfile::ES3.context_params(), (false, 3, 0));
    assert_eq!(GlProfile::_Core43.context_params(), (true, 4, 3));
}
