use vstd::prelude::*;

use crate::components::{Blade, ComponentKind, ComponentValue, KindSet, Position, Robot};
use crate::entity::{Entity, Slot};

verus! {

/// Mathematical model of a world: the registry slots, the free list of
/// retired slot indices, and one column per component type, each column
/// parallel to the slots.
pub struct WorldModel {
    pub slots: Seq<Slot>,
    pub free: Seq<usize>,
    pub positions: Seq<Option<Position>>,
    pub blades: Seq<Option<Blade>>,
    pub robots: Seq<Option<Robot>>,
}

/// Number of live slots in a registry column.
pub open spec fn count_alive(s: Seq<Slot>) -> nat
    decreases s.len(),
{
    if s.len() == 0 {
        0
    } else {
        count_alive(s.drop_last()) + if s.last().alive {
            1nat
        } else {
            0nat
        }
    }
}

/// Appending a slot raises the live count exactly when the slot is live.
pub proof fn lemma_count_alive_push(s: Seq<Slot>, x: Slot)
    ensures
        count_alive(s.push(x)) == count_alive(s) + if x.alive {
            1nat
        } else {
            0nat
        },
{
    assert(s.push(x).drop_last() =~= s);
}

/// Replacing one slot changes the live count by the difference the
/// replacement makes at that index.
pub proof fn lemma_count_alive_update(s: Seq<Slot>, i: int, x: Slot)
    requires
        0 <= i < s.len(),
    ensures
        count_alive(s.update(i, x)) == count_alive(s) - (if s[i].alive {
            1int
        } else {
            0int
        }) + (if x.alive {
            1int
        } else {
            0int
        }),
    decreases s.len(),
{
    if i == s.len() - 1 {
        assert(s.update(i, x).drop_last() =~= s.drop_last());
    } else {
        assert(s.update(i, x).drop_last() =~= s.drop_last().update(i, x));
        lemma_count_alive_update(s.drop_last(), i, x);
    }
}

impl WorldModel {
    /// Well-formedness: the component columns are parallel to the slots, the
    /// free list holds distinct indices of dead slots, and a dead slot holds
    /// no components.
    pub open spec fn wf(self) -> bool {
        &&& self.positions.len() == self.slots.len()
        &&& self.blades.len() == self.slots.len()
        &&& self.robots.len() == self.slots.len()
        &&& forall|k: int|
            0 <= k < self.free.len() ==> (self.free[k] as int) < self.slots.len()
                && !self.slots[self.free[k] as int].alive
        &&& forall|k1: int, k2: int|
            0 <= k1 < k2 < self.free.len() ==> self.free[k1] != self.free[k2]
        &&& forall|i: int|
            0 <= i < self.slots.len() && !self.slots[i].alive ==> self.positions[i] is None
                && self.blades[i] is None && self.robots[i] is None
    }

    /// Whether the handle addresses a live entity: its slot exists, holds a
    /// live entity, and the generations match.
    pub open spec fn alive(self, e: Entity) -> bool {
        &&& (e.slot as int) < self.slots.len()
        &&& self.slots[e.slot as int].alive
        &&& self.slots[e.slot as int].generation == e.generation
    }

    /// The component of the given type on the given entity, or `None` when
    /// the handle is stale or the entity lacks the type.
    pub open spec fn component(self, e: Entity, k: ComponentKind) -> Option<ComponentValue> {
        if self.alive(e) {
            match k {
                ComponentKind::Position => match self.positions[e.slot as int] {
                    Some(p) => Some(ComponentValue::Position(p)),
                    None => None,
                },
                ComponentKind::Blade => match self.blades[e.slot as int] {
                    Some(b) => Some(ComponentValue::Blade(b)),
                    None => None,
                },
                ComponentKind::Robot => match self.robots[e.slot as int] {
                    Some(r) => Some(ComponentValue::Robot(r)),
                    None => None,
                },
            }
        } else {
            None
        }
    }

    /// Whether the entity is alive and carries every component type in the
    /// requested set.
    pub open spec fn has_all(self, e: Entity, req: KindSet) -> bool {
        &&& self.alive(e)
        &&& (req.position ==> self.positions[e.slot as int] is Some)
        &&& (req.blade ==> self.blades[e.slot as int] is Some)
        &&& (req.robot ==> self.robots[e.slot as int] is Some)
    }

    /// Number of live entities.
    pub open spec fn alive_count(self) -> nat {
        count_alive(self.slots)
    }

    /// The slot the next spawn will use: the most recently retired slot when
    /// one is free, otherwise a fresh slot at the end.
    pub open spec fn spawn_slot(self) -> int {
        if self.free.len() > 0 {
            self.free.last() as int
        } else {
            self.slots.len() as int
        }
    }

    /// The handle the next spawn will return.
    pub open spec fn spawned_entity(self) -> Entity {
        if self.free.len() > 0 {
            Entity {
                slot: self.free.last(),
                generation: self.slots[self.free.last() as int].generation,
            }
        } else {
            Entity { slot: self.slots.len() as usize, generation: 0 }
        }
    }

    /// The world after spawning one entity with no components yet.
    pub open spec fn spawn_empty_model(self) -> WorldModel {
        if self.free.len() > 0 {
            let i = self.free.last() as int;
            WorldModel {
                slots: self.slots.update(
                    i,
                    Slot { generation: self.slots[i].generation, alive: true },
                ),
                free: self.free.drop_last(),
                ..self
            }
        } else {
            WorldModel {
                slots: self.slots.push(Slot { generation: 0, alive: true }),
                positions: self.positions.push(None),
                blades: self.blades.push(None),
                robots: self.robots.push(None),
                ..self
            }
        }
    }

    /// The world after attaching (or overwriting) one component on a live
    /// entity; a stale handle changes nothing.
    pub open spec fn set_component_model(self, e: Entity, c: ComponentValue) -> WorldModel {
        if self.alive(e) {
            let i = e.slot as int;
            match c {
                ComponentValue::Position(p) => WorldModel {
                    positions: self.positions.update(i, Some(p)),
                    ..self
                },
                ComponentValue::Blade(b) => WorldModel {
                    blades: self.blades.update(i, Some(b)),
                    ..self
                },
                ComponentValue::Robot(r) => WorldModel {
                    robots: self.robots.update(i, Some(r)),
                    ..self
                },
            }
        } else {
            self
        }
    }

    /// The world after attaching a sequence of components, in order, to a
    /// live entity.
    pub open spec fn set_components_model(self, e: Entity, comps: Seq<ComponentValue>) -> WorldModel
        decreases comps.len(),
    {
        if comps.len() == 0 {
            self
        } else {
            self.set_components_model(e, comps.drop_last()).set_component_model(e, comps.last())
        }
    }

    /// The world after spawning one entity carrying the given components.
    pub open spec fn spawn_model(self, comps: Seq<ComponentValue>) -> WorldModel {
        self.spawn_empty_model().set_components_model(self.spawned_entity(), comps)
    }

    /// The world after removing one component type from a live entity; a
    /// stale handle changes nothing.
    pub open spec fn remove_component_model(self, e: Entity, k: ComponentKind) -> WorldModel {
        if self.alive(e) {
            let i = e.slot as int;
            match k {
                ComponentKind::Position => WorldModel {
                    positions: self.positions.update(i, None),
                    ..self
                },
                ComponentKind::Blade => WorldModel { blades: self.blades.update(i, None), ..self },
                ComponentKind::Robot => WorldModel { robots: self.robots.update(i, None), ..self },
            }
        } else {
            self
        }
    }

    /// The world after despawning a live entity: its components are dropped,
    /// the slot is marked dead, and — unless the generation counter is
    /// exhausted — the generation is bumped and the slot is put up for reuse.
    pub open spec fn despawn_model(self, e: Entity) -> WorldModel {
        if self.alive(e) {
            let i = e.slot as int;
            let g = self.slots[i].generation;
            let cleared = WorldModel {
                positions: self.positions.update(i, None),
                blades: self.blades.update(i, None),
                robots: self.robots.update(i, None),
                ..self
            };
            if g < u64::MAX {
                WorldModel {
                    slots: self.slots.update(i, Slot { generation: (g + 1) as u64, alive: false }),
                    free: self.free.push(e.slot),
                    ..cleared
                }
            } else {
                WorldModel {
                    slots: self.slots.update(i, Slot { generation: g, alive: false }),
                    ..cleared
                }
            }
        } else {
            self
        }
    }
}

/// Spawning with a two-component sequence attaches the two components, in
/// order, to the spawned entity.
pub proof fn lemma_spawn_model_two(
    v: WorldModel,
    c0: ComponentValue,
    c1: ComponentValue,
    comps: Seq<ComponentValue>,
)
    requires
        comps == seq![c0, c1],
    ensures
        v.spawn_model(comps) == v.spawn_empty_model().set_component_model(
            v.spawned_entity(),
            c0,
        ).set_component_model(v.spawned_entity(), c1),
{
    let e = v.spawned_entity();
    let w1 = v.spawn_empty_model();
    assert(comps.drop_last() =~= seq![c0]);
    assert(seq![c0].drop_last() =~= Seq::<ComponentValue>::empty());
    assert(w1.set_components_model(e, Seq::<ComponentValue>::empty()) == w1);
    assert(w1.set_components_model(e, seq![c0]) == w1.set_component_model(e, c0));
    assert(w1.set_components_model(e, comps) == w1.set_components_model(
        e,
        comps.drop_last(),
    ).set_component_model(e, c1));
}

/// The entity registry and component storage: generation-counted slots, a
/// free list of reusable slot indices, and one column per component type.
pub struct World {
    pub slots: Vec<Slot>,
    pub free: Vec<usize>,
    pub positions: Vec<Option<Position>>,
    pub blades: Vec<Option<Blade>>,
    pub robots: Vec<Option<Robot>>,
}

impl View for World {
    type V = WorldModel;

    open spec fn view(&self) -> WorldModel {
        WorldModel {
            slots: self.slots@,
            free: self.free@,
            positions: self.positions@,
            blades: self.blades@,
            robots: self.robots@,
        }
    }
}

impl World {
    /// Returns an empty world: no entities, no components.
    pub fn new() -> (w: World)
        ensures
            w@.wf(),
            w@.slots == Seq::<Slot>::empty(),
            w@.free == Seq::<usize>::empty(),
            w@.alive_count() == 0,
    {
        World {
            slots: Vec::new(),
            free: Vec::new(),
            positions: Vec::new(),
            blades: Vec::new(),
            robots: Vec::new(),
        }
    }

    /// Returns whether the handle addresses a live entity.
    pub fn is_alive(&self, e: Entity) -> (r: bool)
        ensures
            r == self@.alive(e),
    {
        e.slot < self.slots.len() && self.slots[e.slot].alive && self.slots[e.slot].generation
            == e.generation
    }

    /// Spawns one entity with no components and returns its handle.
    pub fn spawn_empty(&mut self) -> (e: Entity)
        requires
            old(self)@.wf(),
        ensures
            final(self)@ == old(self)@.spawn_empty_model(),
            e == old(self)@.spawned_entity(),
            final(self)@.wf(),
            final(self)@.alive(e),
    {
        match self.free.pop() {
            Some(i) => {
                let g = self.slots[i].generation;
                self.slots[i] = Slot { generation: g, alive: true };
                Entity { slot: i, generation: g }
            },
            None => {
                let i = self.slots.len();
                self.slots.push(Slot { generation: 0, alive: true });
                self.positions.push(None);
                self.blades.push(None);
                self.robots.push(None);
                Entity { slot: i, generation: 0 }
            },
        }
    }

    /// Attaches (or overwrites) one component on a live entity. A stale
    /// handle is rejected: nothing changes and `false` comes back.
    pub fn set_component(&mut self, e: Entity, c: ComponentValue) -> (r: bool)
        requires
            old(self)@.wf(),
        ensures
            final(self)@ == old(self)@.set_component_model(e, c),
            r == old(self)@.alive(e),
            final(self)@.wf(),
    {
        if self.is_alive(e) {
            match c {
                ComponentValue::Position(p) => {
                    self.positions[e.slot] = Some(p);
                },
                ComponentValue::Blade(b) => {
                    self.blades[e.slot] = Some(b);
                },
                ComponentValue::Robot(r) => {
                    self.robots[e.slot] = Some(r);
                },
            }
            proof {
                assert(self@.free == old(self)@.free);
                assert(self@.slots == old(self)@.slots);
                assert(self@.wf());
            }
            true
        } else {
            false
        }
    }

    /// Spawns one entity carrying the given components, in order, and
    /// returns its handle.
    pub fn spawn_with(&mut self, comps: &Vec<ComponentValue>) -> (e: Entity)
        requires
            old(self)@.wf(),
        ensures
            final(self)@ == old(self)@.spawn_model(comps@),
            e == old(self)@.spawned_entity(),
            final(self)@.wf(),
            final(self)@.alive(e),
    {
        let e = self.spawn_empty();
        let n = comps.len();
        for i in 0..n
            invariant
                n == comps@.len(),
                self@ == old(self)@.spawn_empty_model().set_components_model(e, comps@.take(i as int)),
                self@.wf(),
                self@.alive(e),
        {
            assert(comps@.take(i + 1).drop_last() =~= comps@.take(i as int));
            assert(comps@.take(i + 1).last() == comps@[i as int]);
            self.set_component(e, comps[i]);
        }
        assert(comps@.take(n as int) =~= comps@);
        e
    }

    /// Despawns the entity the handle addresses: all its components are
    /// removed in the same operation and the handle goes stale. Returns
    /// `false` when the entity was already dead.
    pub fn despawn(&mut self, e: Entity) -> (r: bool)
        requires
            old(self)@.wf(),
        ensures
            final(self)@ == old(self)@.despawn_model(e),
            r == old(self)@.alive(e),
            final(self)@.wf(),
            !final(self)@.alive(e),
    {
        if self.is_alive(e) {
            let g = self.slots[e.slot].generation;
            self.positions[e.slot] = None;
            self.blades[e.slot] = None;
            self.robots[e.slot] = None;
            if g < u64::MAX {
                self.slots[e.slot] = Slot { generation: g + 1, alive: false };
                self.free.push(e.slot);
                assert(forall|k: int|
                    0 <= k < old(self)@.free.len() ==> old(self)@.free[k] != e.slot);
            } else {
                self.slots[e.slot] = Slot { generation: g, alive: false };
            }
            true
        } else {
            false
        }
    }

    /// Removes one component type from a live entity. Returns whether the
    /// entity was alive and carried the type; a stale handle or an absent
    /// component is rejected without change beyond the removal itself.
    pub fn remove_component(&mut self, e: Entity, k: ComponentKind) -> (r: bool)
        requires
            old(self)@.wf(),
        ensures
            final(self)@ == old(self)@.remove_component_model(e, k),
            r == (old(self)@.component(e, k) is Some),
            final(self)@.wf(),
    {
        if self.is_alive(e) {
            let had = match k {
                ComponentKind::Position => {
                    let had = self.positions[e.slot].is_some();
                    self.positions[e.slot] = None;
                    had
                },
                ComponentKind::Blade => {
                    let had = self.blades[e.slot].is_some();
                    self.blades[e.slot] = None;
                    had
                },
                ComponentKind::Robot => {
                    let had = self.robots[e.slot].is_some();
                    self.robots[e.slot] = None;
                    had
                },
            };
            proof {
                assert(self@.free == old(self)@.free);
                assert(self@.slots == old(self)@.slots);
                assert(self@.wf());
            }
            had
        } else {
            false
        }
    }

    /// Reads the component of the given type on the given entity. A stale
    /// handle or a missing component reads as absent, not as an error.
    pub fn get_component(&self, e: Entity, k: ComponentKind) -> (r: Option<ComponentValue>)
        requires
            self@.wf(),
        ensures
            r == self@.component(e, k),
    {
        if self.is_alive(e) {
            match k {
                ComponentKind::Position => match self.positions[e.slot] {
                    Some(p) => Some(ComponentValue::Position(p)),
                    None => None,
                },
                ComponentKind::Blade => match self.blades[e.slot] {
                    Some(b) => Some(ComponentValue::Blade(b)),
                    None => None,
                },
                ComponentKind::Robot => match self.robots[e.slot] {
                    Some(r) => Some(ComponentValue::Robot(r)),
                    None => None,
                },
            }
        } else {
            None
        }
    }

    /// Returns the archetype of the entity: the set of component types it
    /// currently carries. A stale handle has the empty archetype.
    pub fn archetype_of(&self, e: Entity) -> (r: KindSet)
        requires
            self@.wf(),
        ensures
            r.position == (self@.component(e, ComponentKind::Position) is Some),
            r.blade == (self@.component(e, ComponentKind::Blade) is Some),
            r.robot == (self@.component(e, ComponentKind::Robot) is Some),
    {
        KindSet {
            position: self.get_component(e, ComponentKind::Position).is_some(),
            blade: self.get_component(e, ComponentKind::Blade).is_some(),
            robot: self.get_component(e, ComponentKind::Robot).is_some(),
        }
    }

    /// Returns every live entity that carries all requested component types,
    /// each exactly once, in slot order.
    pub fn query_entities(&self, req: KindSet) -> (r: Vec<Entity>)
        requires
            self@.wf(),
        ensures
            forall|j: int| 0 <= j < r@.len() ==> self@.has_all(#[trigger] r@[j], req),
            forall|e: Entity|
                self@.has_all(e, req) ==> exists|j: int| 0 <= j < r@.len() && r@[j] == e,
            forall|j1: int, j2: int| 0 <= j1 < j2 < r@.len() ==> r@[j1].slot < r@[j2].slot,
    {
        let mut r: Vec<Entity> = Vec::new();
        let n = self.slots.len();
        for i in 0..n
            invariant
                n == self@.slots.len(),
                self@.wf(),
                forall|j: int| 0 <= j < r@.len() ==> self@.has_all(#[trigger] r@[j], req),
                forall|e: Entity|
                    e.slot < i && self@.has_all(e, req) ==> exists|j: int|
                        0 <= j < r@.len() && r@[j] == e,
                forall|j1: int, j2: int| 0 <= j1 < j2 < r@.len() ==> r@[j1].slot < r@[j2].slot,
                forall|j: int| 0 <= j < r@.len() ==> (#[trigger] r@[j]).slot < i,
        {
            let s = self.slots[i];
            if s.alive && (!req.position || self.positions[i].is_some()) && (!req.blade
                || self.blades[i].is_some()) && (!req.robot || self.robots[i].is_some()) {
                let e = Entity { slot: i, generation: s.generation };
                let ghost prev = r@;
                r.push(e);
                proof {
                    assert forall|e2: Entity| e2.slot < i + 1 && self@.has_all(e2, req)
                        implies exists|j: int| 0 <= j < r@.len() && r@[j] == e2 by {
                        if e2.slot < i {
                            let j = choose|j: int| 0 <= j < prev.len() && prev[j] == e2;
                            assert(r@[j] == e2);
                        } else {
                            assert(r@[prev.len() as int] == e2);
                        }
                    }
                }
            } else {
                proof {
                    assert forall|e2: Entity| e2.slot < i + 1 && self@.has_all(e2, req)
                        implies exists|j: int| 0 <= j < r@.len() && r@[j] == e2 by {
                        if e2.slot < i {
                            let j = choose|j: int| 0 <= j < r@.len() && r@[j] == e2;
                            assert(r@[j] == e2);
                        }
                    }
                }
            }
        }
        r
    }

    /// Returns every live entity carrying the given component type, paired
    /// with its value, each entity exactly once, in slot order.
    pub fn iterate(&self, k: ComponentKind) -> (r: Vec<(Entity, ComponentValue)>)
        requires
            self@.wf(),
        ensures
            forall|j: int|
                0 <= j < r@.len() ==> self@.component(#[trigger] r@[j].0, k) == Some(r@[j].1),
            forall|e: Entity|
                self@.component(e, k) is Some ==> exists|j: int| 0 <= j < r@.len() && r@[j].0 == e,
            forall|j1: int, j2: int| 0 <= j1 < j2 < r@.len() ==> r@[j1].0.slot < r@[j2].0.slot,
    {
        let mut r: Vec<(Entity, ComponentValue)> = Vec::new();
        let n = self.slots.len();
        for i in 0..n
            invariant
                n == self@.slots.len(),
                self@.wf(),
                forall|j: int|
                    0 <= j < r@.len() ==> self@.component(#[trigger] r@[j].0, k) == Some(r@[j].1),
                forall|e: Entity|
                    e.slot < i && self@.component(e, k) is Some ==> exists|j: int|
                        0 <= j < r@.len() && r@[j].0 == e,
                forall|j1: int, j2: int| 0 <= j1 < j2 < r@.len() ==> r@[j1].0.slot < r@[j2].0.slot,
                forall|j: int| 0 <= j < r@.len() ==> (#[trigger] r@[j].0).slot < i,
        {
            let s = self.slots[i];
            let mut pushed = false;
            if s.alive {
                let e = Entity { slot: i, generation: s.generation };
                match self.get_component(e, k) {
                    Some(c) => {
                        let ghost prev = r@;
                        r.push((e, c));
                        pushed = true;
                        proof {
                            assert forall|e2: Entity|
                                e2.slot < i + 1 && self@.component(e2, k) is Some
                                implies exists|j: int| 0 <= j < r@.len() && r@[j].0 == e2 by {
                                if e2.slot < i {
                                    let j = choose|j: int| 0 <= j < prev.len() && prev[j].0 == e2;
                                    assert(r@[j].0 == e2);
                                } else {
                                    assert(r@[prev.len() as int].0 == e2);
                                }
                            }
                        }
                    },
                    None => {},
                }
            }
            proof {
                if !pushed {
                    assert forall|e2: Entity| e2.slot < i + 1 && self@.component(e2, k) is Some
                        implies exists|j: int| 0 <= j < r@.len() && r@[j].0 == e2 by {
                        if e2.slot < i {
                            let j = choose|j: int| 0 <= j < r@.len() && r@[j].0 == e2;
                            assert(r@[j].0 == e2);
                        }
                    }
                }
            }
        }
        r
    }

    /// Returns the number of live entities.
    pub fn entity_count(&self) -> (n: usize)
        ensures
            n == self@.alive_count(),
    {
        let mut n: usize = 0;
        let len = self.slots.len();
        for i in 0..len
            invariant
                len == self@.slots.len(),
                n == count_alive(self@.slots.take(i as int)),
                n <= i,
        {
            assert(self@.slots.take(i + 1).drop_last() =~= self@.slots.take(i as int));
            assert(self@.slots.take(i + 1).last() == self@.slots[i as int]);
            if self.slots[i].alive {
                n = n + 1;
            }
        }
        assert(self@.slots.take(len as int) =~= self@.slots);
        n
    }
}

impl Default for World {
    /// Returns an empty world, as `World::new` does.
    fn default() -> (w: World)
        ensures
            w@.wf(),
            w@.slots == Seq::<Slot>::empty(),
            w@.free == Seq::<usize>::empty(),
            w@.alive_count() == 0,
    {
        World::new()
    }
}

} // verus!
