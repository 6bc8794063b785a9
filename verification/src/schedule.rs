use vstd::prelude::*;

use crate::command::CommandBuffer;
use crate::components::{Blade, KindSet, GROWTH_STEP};
use crate::world::{World, WorldModel};

verus! {

/// The access a system declares: which component types it reads and which it
/// writes. The scheduler may run two systems without synchronization only
/// when their declarations are compatible.
#[derive(Clone, Copy, PartialEq, Eq, Structural, Debug)]
pub struct Access {
    pub reads: KindSet,
    pub writes: KindSet,
}

impl Access {
    /// Two access declarations are compatible when neither writes a type the
    /// other reads or writes; any number of readers of a type may share it.
    pub open spec fn spec_compatible(self, other: Access) -> bool {
        &&& !self.writes.spec_overlaps(other.writes)
        &&& !self.writes.spec_overlaps(other.reads)
        &&& !self.reads.spec_overlaps(other.writes)
    }

    /// Returns whether two access declarations are compatible.
    #[verifier::when_used_as_spec(spec_compatible)]
    pub fn compatible(self, other: Access) -> (r: bool)
        ensures
            r == self.spec_compatible(other),
    {
        !self.writes.overlaps(other.writes) && !self.writes.overlaps(other.reads)
            && !self.reads.overlaps(other.writes)
    }
}

/// The systems a schedule of this simulation can run.
#[derive(Clone, Copy, PartialEq, Eq, Structural, Debug)]
pub enum SystemKind {
    /// The growth system: raises every growth component's height by one step.
    GrassGrow,
}

impl SystemKind {
    /// The access a system declares, a superset of what it touches.
    pub open spec fn spec_declared_access(self) -> Access {
        match self {
            SystemKind::GrassGrow => Access {
                reads: KindSet::spec_empty(),
                writes: KindSet { position: false, blade: true, robot: false },
            },
        }
    }

    /// Returns the access this system declares.
    #[verifier::when_used_as_spec(spec_declared_access)]
    pub fn declared_access(self) -> (a: Access)
        ensures
            a == self.spec_declared_access(),
    {
        match self {
            SystemKind::GrassGrow => Access {
                reads: KindSet::empty(),
                writes: KindSet { position: false, blade: true, robot: false },
            },
        }
    }
}

/// A growth component after one growth step: the height rises by
/// `GROWTH_STEP`, saturating at the largest representable height; an absent
/// component stays absent.
pub open spec fn grow_blade(b: Option<Blade>) -> Option<Blade> {
    match b {
        Some(b) => Some(
            Blade {
                height: if b.height + GROWTH_STEP > i64::MAX {
                    i64::MAX
                } else {
                    (b.height + GROWTH_STEP) as i64
                },
            },
        ),
        None => None,
    }
}

/// The world after one run of the growth system: every growth component has
/// grown one step; the registry, the free list and every other component
/// column are untouched.
pub open spec fn grow_model(v: WorldModel) -> WorldModel {
    WorldModel { blades: Seq::new(v.blades.len(), |i: int| grow_blade(v.blades[i])), ..v }
}

/// The growth system: raises the height of every growth component by one
/// step, saturating at the largest representable height. It touches nothing
/// outside its declared write set.
pub fn grass_grow(world: &mut World)
    requires
        old(world)@.wf(),
    ensures
        final(world)@ == grow_model(old(world)@),
        final(world)@.wf(),
{
    let n = world.blades.len();
    for i in 0..n
        invariant
            n == world@.blades.len(),
            world@.slots == old(world)@.slots,
            world@.free == old(world)@.free,
            world@.positions == old(world)@.positions,
            world@.robots == old(world)@.robots,
            world@.blades.len() == old(world)@.blades.len(),
            forall|j: int| 0 <= j < i ==> world@.blades[j] == grow_blade(old(world)@.blades[j]),
            forall|j: int| i <= j < n ==> world@.blades[j] == old(world)@.blades[j],
    {
        match world.blades[i] {
            Some(b) => {
                let h = if b.height > i64::MAX - GROWTH_STEP {
                    i64::MAX
                } else {
                    b.height + GROWTH_STEP
                };
                world.blades[i] = Some(Blade { height: h });
            },
            None => {},
        }
    }
    proof {
        assert(world@.blades =~= grow_model(old(world)@).blades);
        assert(world@ == grow_model(old(world)@));
    }
}

/// Runs one system against the world and its own command buffer. The only
/// registered system writes through its query in place and records no
/// structural change, so its buffer comes back as it went in.
fn run_system(k: SystemKind, world: &mut World, buffer: &mut CommandBuffer)
    requires
        old(world)@.wf(),
        old(buffer).wf(),
    ensures
        final(world)@ == run_system_model(k, old(world)@),
        final(world)@.wf(),
        final(buffer).wf(),
        final(buffer).commands@ == old(buffer).commands@,
{
    match k {
        SystemKind::GrassGrow => {
            grass_grow(world);
        },
    }
}

/// The world after one run of the named system.
pub open spec fn run_system_model(k: SystemKind, v: WorldModel) -> WorldModel {
    match k {
        SystemKind::GrassGrow => grow_model(v),
    }
}

/// The world after the listed systems run once each, in order.
pub open spec fn run_schedule_model(systems: Seq<SystemKind>, v: WorldModel) -> WorldModel
    decreases systems.len(),
{
    if systems.len() == 0 {
        v
    } else {
        run_system_model(systems.last(), run_schedule_model(systems.drop_last(), v))
    }
}

/// An ordered list of systems, fixed once built, executed once per tick in
/// that order.
pub struct Schedule {
    pub systems: Vec<SystemKind>,
}

impl Schedule {
    /// Builds a schedule that runs the given systems in order.
    pub fn build(systems: Vec<SystemKind>) -> (s: Schedule)
        ensures
            s.systems@ == systems@,
    {
        Schedule { systems }
    }

    /// Runs every system once, in list order, each with its own command
    /// buffer that is flushed before the next system starts, so no system
    /// observes another system's unflushed commands.
    pub fn execute(&self, world: &mut World)
        requires
            old(world)@.wf(),
        ensures
            final(world)@ == run_schedule_model(self.systems@, old(world)@),
            final(world)@.wf(),
    {
        let n = self.systems.len();
        for i in 0..n
            invariant
                n == self.systems@.len(),
                world@.wf(),
                world@ == run_schedule_model(self.systems@.take(i as int), old(world)@),
        {
            proof {
                assert(self.systems@.take(i + 1).drop_last() =~= self.systems@.take(i as int));
                assert(self.systems@.take(i + 1).last() == self.systems@[i as int]);
            }
            let mut buffer = CommandBuffer::new();
            run_system(self.systems[i], world, &mut buffer);
            buffer.flush(world);
        }
        proof {
            assert(self.systems@.take(n as int) =~= self.systems@);
        }
    }
}

/// Builds the schedule this simulation runs every tick: the growth system
/// alone.
pub fn setup_systems() -> (s: Schedule)
    ensures
        s.systems@ == seq![SystemKind::GrassGrow],
{
    let mut systems: Vec<SystemKind> = Vec::new();
    systems.push(SystemKind::GrassGrow);
    proof {
        assert(systems@ =~= seq![SystemKind::GrassGrow]);
    }
    Schedule::build(systems)
}

} // verus!
