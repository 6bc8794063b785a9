use vstd::prelude::*;

use crate::command::{flush_model, Command, EntityRef};
use crate::components::{Blade, ComponentKind, ComponentValue, GROWTH_STEP};
use crate::entity::{Entity, Slot};
use crate::schedule::{grow_blade, grow_model, run_schedule_model, SystemKind};
use crate::world::{lemma_count_alive_push, lemma_count_alive_update, WorldModel};

verus! {

/// Attaching components never touches the registry slots or the free list,
/// and keeps the world well-formed.
pub proof fn lemma_set_components_model_props(v: WorldModel, e: Entity, comps: Seq<ComponentValue>)
    requires
        v.wf(),
    ensures
        v.set_components_model(e, comps).slots == v.slots,
        v.set_components_model(e, comps).free == v.free,
        v.set_components_model(e, comps).wf(),
    decreases comps.len(),
{
    if comps.len() > 0 {
        lemma_set_components_model_props(v, e, comps.drop_last());
        let prev = v.set_components_model(e, comps.drop_last());
        assert(prev.set_component_model(e, comps.last()).wf());
    }
}

/// Spawning adds exactly one live entity: the returned handle is alive, the
/// live count rises by one, and the world stays well-formed.
pub proof fn lemma_spawn_model_props(v: WorldModel, comps: Seq<ComponentValue>)
    requires
        v.wf(),
        v.slots.len() <= usize::MAX,
    ensures
        v.spawn_model(comps).wf(),
        v.spawn_model(comps).alive(v.spawned_entity()),
        v.spawn_model(comps).alive_count() == v.alive_count() + 1,
        v.spawn_model(comps).slots == v.spawn_empty_model().slots,
        v.spawn_model(comps).free == v.spawn_empty_model().free,
{
    let w1 = v.spawn_empty_model();
    let e = v.spawned_entity();
    if v.free.len() > 0 {
        let i = v.free.last() as int;
        lemma_count_alive_update(
            v.slots,
            i,
            Slot { generation: v.slots[i].generation, alive: true },
        );
        assert(w1.wf());
        assert(w1.alive(e));
    } else {
        lemma_count_alive_push(v.slots, Slot { generation: 0, alive: true });
        assert(w1.wf());
        assert(e.slot as int == v.slots.len());
        assert(w1.alive(e));
    }
    lemma_set_components_model_props(w1, e, comps);
}

/// Despawning a live entity removes exactly that entity: the handle goes
/// stale, every component column at its slot reads absent, the live count
/// falls by one, and the world stays well-formed. Despawning a stale handle
/// changes nothing.
pub proof fn lemma_despawn_model_props(v: WorldModel, e: Entity)
    requires
        v.wf(),
    ensures
        v.despawn_model(e).wf(),
        !v.despawn_model(e).alive(e),
        v.alive(e) ==> v.despawn_model(e).alive_count() == v.alive_count() - 1,
        !v.alive(e) ==> v.despawn_model(e) == v,
        v.alive(e) ==> v.despawn_model(e).positions[e.slot as int] is None,
        v.alive(e) ==> v.despawn_model(e).blades[e.slot as int] is None,
        v.alive(e) ==> v.despawn_model(e).robots[e.slot as int] is None,
{
    if v.alive(e) {
        let i = e.slot as int;
        let g = v.slots[i].generation;
        assert(forall|k: int| 0 <= k < v.free.len() ==> v.free[k] != e.slot);
        if g < u64::MAX {
            lemma_count_alive_update(v.slots, i, Slot { generation: (g + 1) as u64, alive: false });
        } else {
            lemma_count_alive_update(v.slots, i, Slot { generation: g, alive: false });
        }
        assert(v.despawn_model(e).wf());
    }
}

/// The world after the given schedule has ticked the given number of times.
pub open spec fn ticks_model(systems: Seq<SystemKind>, v: WorldModel, k: nat) -> WorldModel
    decreases k,
{
    if k == 0 {
        v
    } else {
        run_schedule_model(systems, ticks_model(systems, v, (k - 1) as nat))
    }
}

/// Law: under the growth schedule, a growth component's height after any
/// number of ticks is its initial height plus one step per tick — as long as
/// the total stays representable — whatever other components its entity
/// carries and whatever else the world holds.
pub proof fn lemma_growth_accumulates(systems: Seq<SystemKind>, v: WorldModel, k: nat, i: int)
    requires
        systems == seq![SystemKind::GrassGrow],
        0 <= i < v.blades.len(),
        v.blades[i] is Some,
        v.blades[i]->Some_0.height + k * GROWTH_STEP <= i64::MAX,
    ensures
        ticks_model(systems, v, k).blades.len() == v.blades.len(),
        ticks_model(systems, v, k).blades[i] == Some(
            Blade { height: (v.blades[i]->Some_0.height + k * GROWTH_STEP) as i64 },
        ),
    decreases k,
{
    if k > 0 {
        let h = v.blades[i]->Some_0.height;
        assert(((k - 1) as nat) * GROWTH_STEP == k * GROWTH_STEP - GROWTH_STEP) by (nonlinear_arith)
            requires
                k >= 1,
        ;
        lemma_growth_accumulates(systems, v, (k - 1) as nat, i);
        let prev = ticks_model(systems, v, (k - 1) as nat);
        assert(systems.drop_last() =~= Seq::<SystemKind>::empty());
        assert(run_schedule_model(Seq::<SystemKind>::empty(), prev) == prev);
        assert(run_schedule_model(systems, prev) == grow_model(prev));
        assert(ticks_model(systems, v, k) == grow_model(prev));
        assert(((k - 1) as nat) * GROWTH_STEP >= 0) by (nonlinear_arith);
        assert(k * GROWTH_STEP >= 0) by (nonlinear_arith);
        let hp = prev.blades[i]->Some_0.height;
        assert(hp == h + k * GROWTH_STEP - GROWTH_STEP);
        assert(hp + GROWTH_STEP <= i64::MAX);
        assert(grow_model(prev).blades[i] == grow_blade(prev.blades[i]));
        assert(grow_blade(prev.blades[i]) == Some(Blade { height: (hp + GROWTH_STEP) as i64 }));
        assert(hp + GROWTH_STEP == h + k * GROWTH_STEP);
        assert((hp + GROWTH_STEP) as i64 == (h + k * GROWTH_STEP) as i64);
    } else {
        assert(k * GROWTH_STEP == 0) by (nonlinear_arith)
            requires
                k == 0,
        ;
        assert(ticks_model(systems, v, k) == v);
        assert((v.blades[i]->Some_0.height + k * GROWTH_STEP) as i64 == v.blades[i]->Some_0.height);
    }
}

/// Law: the growth system touches only what it declares. One run changes the
/// growth column alone; the registry, the free list and every other
/// component column come out unchanged, so every live entity stays alive
/// with its other data untouched.
pub proof fn lemma_grow_writes_only_declared(v: WorldModel)
    ensures
        grow_model(v).slots == v.slots,
        grow_model(v).free == v.free,
        grow_model(v).positions == v.positions,
        grow_model(v).robots == v.robots,
        forall|e: Entity| grow_model(v).alive(e) == v.alive(e),
{
}

/// Law: a schedule with no systems leaves the world unchanged.
pub proof fn lemma_empty_schedule_identity(v: WorldModel)
    ensures
        run_schedule_model(Seq::<SystemKind>::empty(), v) == v,
{
}

/// Law: a despawned handle never addresses the world again — not right after
/// the despawn, and not after a later spawn reuses its slot.
pub proof fn lemma_stale_handle_never_resolves(
    v: WorldModel,
    e: Entity,
    comps: Seq<ComponentValue>,
)
    requires
        v.wf(),
        v.alive(e),
        v.slots.len() <= usize::MAX,
    ensures
        !v.despawn_model(e).alive(e),
        !v.despawn_model(e).spawn_model(comps).alive(e),
        forall|k: ComponentKind| v.despawn_model(e).component(e, k) is None,
        forall|k: ComponentKind| v.despawn_model(e).spawn_model(comps).component(e, k) is None,
{
    lemma_despawn_model_props(v, e);
    let d = v.despawn_model(e);
    lemma_spawn_model_props(d, comps);
    let s = d.spawn_model(comps);
    let g = v.slots[e.slot as int].generation;
    if d.free.len() > 0 {
        let j = d.free.last() as int;
        if j == e.slot as int {
            assert(g < u64::MAX);
            assert(s.slots[j].generation == g + 1);
        } else {
            assert(s.slots[e.slot as int] == d.slots[e.slot as int]);
        }
    } else {
        assert(s.slots[e.slot as int] == d.slots[e.slot as int]);
    }
    assert(!s.alive(e));
}

/// Law: a spawn and a despawn of the same pending entity, recorded in one
/// buffer, collapse at flush: the spawned entity comes out dead, its slot
/// holds no components, and the number of live entities is what it was
/// before the buffer was created.
pub proof fn lemma_spawn_despawn_collapses(
    v: WorldModel,
    comps: Vec<ComponentValue>,
    cmds: Seq<Command>,
)
    requires
        v.wf(),
        v.slots.len() <= usize::MAX,
        cmds == seq![
            Command::Spawn(comps),
            Command::Despawn(EntityRef::Pending(0)),
        ],
    ensures
        !flush_model(v, cmds).alive(v.spawned_entity()),
        flush_model(v, cmds).alive_count() == v.alive_count(),
        flush_model(v, cmds).positions[v.spawned_entity().slot as int] is None,
        flush_model(v, cmds).blades[v.spawned_entity().slot as int] is None,
        flush_model(v, cmds).robots[v.spawned_entity().slot as int] is None,
        flush_model(v, cmds).wf(),
{
    let e = v.spawned_entity();
    let first = seq![Command::Spawn(comps)];
    assert(cmds.drop_last() =~= first);
    assert(first.drop_last() =~= Seq::<Command>::empty());
    let s = v.spawn_model(comps@);
    lemma_spawn_model_props(v, comps@);
    assert(crate::command::flush_state(v, Seq::<Command>::empty()) == (
        v,
        Seq::<Entity>::empty(),
    ));
    assert(crate::command::flush_state(v, first).0 == s);
    assert(crate::command::flush_state(v, first).1 =~= seq![e]);
    assert(crate::command::resolve(seq![e], EntityRef::Pending(0)) == Some(e));
    assert(flush_model(v, cmds) == s.despawn_model(e));
    lemma_despawn_model_props(s, e);
}

} // verus!
