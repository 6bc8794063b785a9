use vstd::prelude::*;

use crate::components::{Blade, ComponentValue, Position, Robot, UNIT};
use crate::entity::Slot;
use crate::schedule::{run_schedule_model, Schedule};
use crate::world::World;

verus! {

/// Initial height of every seeded growth entity: one world unit.
pub const BLADE_START_HEIGHT: i64 = 1000;

/// Radius of the seeded mobile actor: one world unit.
pub const ROBOT_RADIUS: i64 = 1000;

/// Operational height of the seeded mobile actor: four tenths of a world
/// unit.
pub const ROBOT_CUTTING_HEIGHT: i64 = 400;

/// Side length of the seeded grid of growth entities.
pub const GRID_SIDE: usize = 10;

/// The mobile-actor record the world is seeded with.
pub open spec fn seeded_robot() -> Robot {
    Robot { radius: ROBOT_RADIUS, cutting_height: ROBOT_CUTTING_HEIGHT }
}

/// Where the seeded mobile actor stands.
pub open spec fn seeded_robot_position() -> Position {
    Position { x: (50 * UNIT) as i64, y: (50 * UNIT) as i64 }
}

/// The growth record every seeded growth entity starts with.
pub open spec fn seeded_blade() -> Blade {
    Blade { height: BLADE_START_HEIGHT }
}

/// The coordinate of the `j`-th seeded growth entity: the grid is walked
/// column by column.
pub open spec fn grid_position(j: int) -> Position {
    Position {
        x: ((j / (GRID_SIDE as int)) * UNIT) as i64,
        y: ((j % (GRID_SIDE as int)) * UNIT) as i64,
    }
}

/// A slot holding a live entity of the first generation.
pub open spec fn fresh_slot() -> Slot {
    Slot { generation: 0, alive: true }
}

/// Seeds the world the simulation starts from: one mobile actor at the
/// center, then one growth entity per grid cell, each one world unit high
/// and at a distinct coordinate.
pub fn initialize_world() -> (w: World)
    ensures
        w@.wf(),
        w@.slots.len() == 101,
        w@.free.len() == 0,
        w@.alive_count() == 101,
        forall|i: int| 0 <= i < 101 ==> w@.slots[i] == fresh_slot(),
        w@.robots[0] == Some(seeded_robot()),
        w@.positions[0] == Some(seeded_robot_position()),
        w@.blades[0] is None,
        forall|i: int| 1 <= i < 101 ==> w@.blades[i] == Some(seeded_blade()),
        forall|i: int| 1 <= i < 101 ==> w@.robots[i] is None,
        forall|i: int| 1 <= i < 101 ==> w@.positions[i] == Some(grid_position(i - 1)),
{
    let mut world = World::new();

    let cr = ComponentValue::Robot(Robot { radius: ROBOT_RADIUS, cutting_height: ROBOT_CUTTING_HEIGHT });
    let cp = ComponentValue::Position(Position { x: 50 * UNIT, y: 50 * UNIT });
    let mut comps: Vec<ComponentValue> = Vec::new();
    comps.push(cr);
    comps.push(cp);
    let ghost v0 = world@;
    world.spawn_with(&comps);
    proof {
        assert(comps@ =~= seq![cr, cp]);
        crate::world::lemma_spawn_model_two(v0, cr, cp, comps@);
        crate::world::lemma_count_alive_push(v0.slots, fresh_slot());
    }

    let cells = GRID_SIDE * GRID_SIDE;
    for k in 0..cells
        invariant
            cells == 100,
            world@.wf(),
            world@.free.len() == 0,
            world@.slots.len() == k + 1,
            world@.alive_count() == k + 1,
            forall|i: int| 0 <= i < k + 1 ==> world@.slots[i] == fresh_slot(),
            world@.robots[0] == Some(seeded_robot()),
            world@.positions[0] == Some(seeded_robot_position()),
            world@.blades[0] is None,
            forall|i: int| 1 <= i < k + 1 ==> world@.blades[i] == Some(seeded_blade()),
            forall|i: int| 1 <= i < k + 1 ==> world@.robots[i] is None,
            forall|i: int| 1 <= i < k + 1 ==> world@.positions[i] == Some(grid_position(i - 1)),
    {
        let x = k / GRID_SIDE;
        let y = k % GRID_SIDE;
        let cb = ComponentValue::Blade(Blade { height: BLADE_START_HEIGHT });
        let cg = ComponentValue::Position(
            Position { x: (x as i64) * UNIT, y: (y as i64) * UNIT },
        );
        let mut cell: Vec<ComponentValue> = Vec::new();
        cell.push(cb);
        cell.push(cg);
        let ghost v = world@;
        world.spawn_with(&cell);
        proof {
            assert(cell@ =~= seq![cb, cg]);
            crate::world::lemma_spawn_model_two(v, cb, cg, cell@);
            crate::world::lemma_count_alive_push(v.slots, fresh_slot());
            assert(cg == ComponentValue::Position(grid_position(k as int)));
        }
    }
    world
}

/// Token handed back to the host loop after a tick: whether the loop should
/// keep ticking or stop.
pub enum ConitueToken {
    Continue,
    Terminate,
}

impl ConitueToken {
    /// Returns whether the host loop should stop ticking.
    pub fn should_terminate(&self) -> (r: bool)
        ensures
            r == (*self is Terminate),
    {
        matches!(self, ConitueToken::Terminate)
    }
}

/// One tick, driven by the host loop. When the host has seen a quit request,
/// nothing runs and the token says to terminate; otherwise the schedule
/// executes once and the token says to continue.
pub fn tick(world: &mut World, schedule: &Schedule, quit_requested: bool) -> (t: ConitueToken)
    requires
        old(world)@.wf(),
    ensures
        final(world)@.wf(),
        quit_requested ==> (t is Terminate) && *final(world) == *old(world),
        !quit_requested ==> (t is Continue) && final(world)@ == run_schedule_model(
            schedule.systems@,
            old(world)@,
        ),
{
    if quit_requested {
        ConitueToken::Terminate
    } else {
        schedule.execute(world);
        ConitueToken::Continue
    }
}

/// The graphics context profiles the host can ask its windowing layer for.
pub enum GlProfile {
    _Core43,
    ES3,
}

impl GlProfile {
    /// The context parameters the host should request for this profile:
    /// whether the desktop core profile (rather than the embedded one) is
    /// wanted, and the major and minor context version.
    pub fn context_params(&self) -> (r: (bool, u8, u8))
        ensures
            *self is _Core43 ==> r == (true, 4u8, 3u8),
            *self is ES3 ==> r == (false, 3u8, 0u8),
    {
        match self {
            GlProfile::_Core43 => (true, 4, 3),
            GlProfile::ES3 => (false, 3, 0),
        }
    }
}

} // verus!
