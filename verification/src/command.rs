use vstd::prelude::*;

use crate::components::{ComponentKind, ComponentValue};
use crate::entity::Entity;
use crate::world::{World, WorldModel};

verus! {

/// A reference to an entity from inside a command buffer: either a handle to
/// an entity that already exists, or the index of a spawn recorded earlier in
/// the same buffer, standing for the entity that spawn will create at flush.
#[derive(Clone, Copy, PartialEq, Eq, Structural, Debug)]
pub enum EntityRef {
    Existing(Entity),
    Pending(usize),
}

/// A recorded structural mutation. Commands only record intent; nothing is
/// visible to any query until the buffer is flushed.
#[derive(Debug)]
pub enum Command {
    /// Spawn a new entity carrying these components.
    Spawn(Vec<ComponentValue>),
    /// Despawn the referenced entity.
    Despawn(EntityRef),
    /// Attach (or overwrite) one component on the referenced entity.
    Add(EntityRef, ComponentValue),
    /// Remove one component type from the referenced entity.
    Remove(EntityRef, ComponentKind),
}

/// The entity a buffer-local reference denotes, given the entities the flush
/// has spawned so far. A pending index no spawn has matched denotes nothing.
pub open spec fn resolve(spawned: Seq<Entity>, r: EntityRef) -> Option<Entity> {
    match r {
        EntityRef::Existing(e) => Some(e),
        EntityRef::Pending(i) => if (i as int) < spawned.len() {
            Some(spawned[i as int])
        } else {
            None
        },
    }
}

/// One command applied to the world model, together with the updated list of
/// entities spawned so far. A command whose reference denotes nothing, or
/// denotes a stale handle, applies as a no-op.
pub open spec fn apply_command(v: WorldModel, spawned: Seq<Entity>, cmd: Command) -> (
    WorldModel,
    Seq<Entity>,
) {
    match cmd {
        Command::Spawn(comps) => (v.spawn_model(comps@), spawned.push(v.spawned_entity())),
        Command::Despawn(r) => (
            match resolve(spawned, r) {
                Some(e) => v.despawn_model(e),
                None => v,
            },
            spawned,
        ),
        Command::Add(r, c) => (
            match resolve(spawned, r) {
                Some(e) => v.set_component_model(e, c),
                None => v,
            },
            spawned,
        ),
        Command::Remove(r, k) => (
            match resolve(spawned, r) {
                Some(e) => v.remove_component_model(e, k),
                None => v,
            },
            spawned,
        ),
    }
}

/// The world model and the spawned entities after the given commands apply
/// in enqueue order.
pub open spec fn flush_state(v: WorldModel, cmds: Seq<Command>) -> (WorldModel, Seq<Entity>)
    decreases cmds.len(),
{
    if cmds.len() == 0 {
        (v, Seq::empty())
    } else {
        let prev = flush_state(v, cmds.drop_last());
        apply_command(prev.0, prev.1, cmds.last())
    }
}

/// The world model after a buffer holding the given commands is flushed.
pub open spec fn flush_model(v: WorldModel, cmds: Seq<Command>) -> WorldModel {
    flush_state(v, cmds).0
}

/// Number of spawn commands in a command sequence.
pub open spec fn count_spawns(cmds: Seq<Command>) -> nat
    decreases cmds.len(),
{
    if cmds.len() == 0 {
        0
    } else {
        count_spawns(cmds.drop_last()) + if cmds.last() is Spawn {
            1nat
        } else {
            0nat
        }
    }
}

/// There are never more spawn commands than commands.
pub proof fn lemma_count_spawns_le_len(cmds: Seq<Command>)
    ensures
        count_spawns(cmds) <= cmds.len(),
    decreases cmds.len(),
{
    if cmds.len() > 0 {
        lemma_count_spawns_le_len(cmds.drop_last());
    }
}

/// A queue of deferred structural mutations. Recording returns immediately;
/// every recorded command is applied, in enqueue order, when the buffer is
/// flushed into a world, and the buffer is cleared by the same flush.
pub struct CommandBuffer {
    pub commands: Vec<Command>,
    /// Number of spawn commands recorded so far; the next spawn gets this
    /// pending index.
    pub spawns: usize,
}

impl CommandBuffer {
    /// The spawn counter matches the recorded commands.
    pub open spec fn wf(self) -> bool {
        self.spawns == count_spawns(self.commands@)
    }

    /// Returns an empty command buffer.
    pub fn new() -> (b: CommandBuffer)
        ensures
            b.wf(),
            b.commands@ == Seq::<Command>::empty(),
            b.spawns == 0,
    {
        CommandBuffer { commands: Vec::new(), spawns: 0 }
    }

    /// Records a spawn of one entity carrying the given components, and
    /// returns the buffer-local reference under which later commands in this
    /// same buffer can address that entity.
    pub fn spawn(&mut self, comps: Vec<ComponentValue>) -> (r: EntityRef)
        requires
            old(self).wf(),
        ensures
            final(self).wf(),
            final(self).commands@ == old(self).commands@.push(Command::Spawn(comps)),
            r == EntityRef::Pending(old(self).spawns),
            final(self).spawns == old(self).spawns + 1,
    {
        let r = EntityRef::Pending(self.spawns);
        self.commands.push(Command::Spawn(comps));
        let n = self.commands.len();
        proof {
            lemma_count_spawns_le_len(old(self).commands@);
            assert(self.commands@.drop_last() =~= old(self).commands@);
            assert(self.spawns < n);
        }
        self.spawns = self.spawns + 1;
        r
    }

    /// Records a despawn of the referenced entity.
    pub fn despawn(&mut self, r: EntityRef)
        requires
            old(self).wf(),
        ensures
            final(self).wf(),
            final(self).commands@ == old(self).commands@.push(Command::Despawn(r)),
            final(self).spawns == old(self).spawns,
    {
        self.commands.push(Command::Despawn(r));
        proof {
            assert(self.commands@.drop_last() =~= old(self).commands@);
        }
    }

    /// Records attaching (or overwriting) one component on the referenced
    /// entity.
    pub fn add_component(&mut self, r: EntityRef, c: ComponentValue)
        requires
            old(self).wf(),
        ensures
            final(self).wf(),
            final(self).commands@ == old(self).commands@.push(Command::Add(r, c)),
            final(self).spawns == old(self).spawns,
    {
        self.commands.push(Command::Add(r, c));
        proof {
            assert(self.commands@.drop_last() =~= old(self).commands@);
        }
    }

    /// Records removing one component type from the referenced entity.
    pub fn remove_component(&mut self, r: EntityRef, k: ComponentKind)
        requires
            old(self).wf(),
        ensures
            final(self).wf(),
            final(self).commands@ == old(self).commands@.push(Command::Remove(r, k)),
            final(self).spawns == old(self).spawns,
    {
        self.commands.push(Command::Remove(r, k));
        proof {
            assert(self.commands@.drop_last() =~= old(self).commands@);
        }
    }

    /// Applies every recorded command to the world, in enqueue order, then
    /// clears the buffer. This is the single point at which world structure
    /// changes.
    pub fn flush(&mut self, world: &mut World)
        requires
            old(world)@.wf(),
        ensures
            final(world)@ == flush_model(old(world)@, old(self).commands@),
            final(world)@.wf(),
            final(self).commands@ == Seq::<Command>::empty(),
            final(self).wf(),
    {
        let mut spawned: Vec<Entity> = Vec::new();
        let n = self.commands.len();
        for idx in 0..n
            invariant
                n == self.commands@.len(),
                self.commands@ == old(self).commands@,
                world@.wf(),
                (world@, spawned@) == flush_state(old(world)@, self.commands@.take(idx as int)),
        {
            proof {
                assert(self.commands@.take(idx + 1).drop_last() =~= self.commands@.take(
                    idx as int,
                ));
                assert(self.commands@.take(idx + 1).last() == self.commands@[idx as int]);
            }
            match &self.commands[idx] {
                Command::Spawn(comps) => {
                    let e = world.spawn_with(comps);
                    spawned.push(e);
                },
                Command::Despawn(r) => {
                    match resolve_ref(&spawned, *r) {
                        Some(e) => {
                            world.despawn(e);
                        },
                        None => {},
                    }
                },
                Command::Add(r, c) => {
                    match resolve_ref(&spawned, *r) {
                        Some(e) => {
                            world.set_component(e, *c);
                        },
                        None => {},
                    }
                },
                Command::Remove(r, k) => {
                    match resolve_ref(&spawned, *r) {
                        Some(e) => {
                            world.remove_component(e, *k);
                        },
                        None => {},
                    }
                },
            }
        }
        proof {
            assert(self.commands@.take(n as int) =~= self.commands@);
        }
        self.commands.clear();
        self.spawns = 0;
    }
}

/// The executable counterpart of `resolve`.
fn resolve_ref(spawned: &Vec<Entity>, r: EntityRef) -> (res: Option<Entity>)
    ensures
        res == resolve(spawned@, r),
{
    match r {
        EntityRef::Existing(e) => Some(e),
        EntityRef::Pending(i) => if i < spawned.len() {
            Some(spawned[i])
        } else {
            None
        },
    }
}

} // verus!
