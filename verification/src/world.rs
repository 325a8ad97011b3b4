//! World — the entity arena: generational handles, spawning, despawning and
//! index recycling.

use vstd::prelude::*;

use crate::entity::{Entity, EntityIndex};

verus! {

/// Metadata for each entity slot.
#[derive(Clone, Copy, Debug)]
pub struct EntityMeta {
    /// Generation of the handle that currently (or last) owned this slot.
    pub generation: u32,
    /// Whether the slot is owned by a live entity.
    pub alive: bool,
}

/// The generation a slot gets when its entity is despawned (wrapping).
pub open spec fn next_generation(g: u32) -> u32 {
    if g == u32::MAX {
        0
    } else {
        (g + 1) as u32
    }
}

/// The abstract state of the arena: one metadata record per slot, and the
/// stack of recyclable slot indices (the last one is reused first).
pub struct ArenaView {
    pub metas: Seq<EntityMeta>,
    pub free: Seq<EntityIndex>,
}

/// `e` is alive in `v`: its slot exists, is live, and carries `e`'s generation.
pub open spec fn arena_is_alive(v: ArenaView, e: Entity) -> bool {
    &&& (e.idx() as int) < v.metas.len()
    &&& v.metas[e.idx() as int].alive
    &&& v.metas[e.idx() as int].generation == e.gen()
}

/// The handle that `spawn` hands out in state `v`.
pub open spec fn arena_spawned(v: ArenaView) -> Entity {
    if v.free.len() > 0 {
        let i = v.free.last();
        Entity::spec_new(i, v.metas[i as int].generation)
    } else {
        Entity::spec_new(v.metas.len() as u32, 0)
    }
}

/// The state after `spawn` in state `v`: a recycled slot becomes live, or a
/// fresh slot of generation 0 is appended.
pub open spec fn arena_after_spawn(v: ArenaView) -> ArenaView {
    if v.free.len() > 0 {
        let i = v.free.last();
        ArenaView {
            metas: v.metas.update(i as int, EntityMeta { generation: v.metas[i as int].generation, alive: true }),
            free: v.free.drop_last(),
        }
    } else {
        ArenaView {
            metas: v.metas.push(EntityMeta { generation: 0, alive: true }),
            free: v.free,
        }
    }
}

/// The state after `despawn(e)` in state `v`: a live `e` has its slot
/// released with the next generation and its index pushed for reuse;
/// otherwise nothing changes.
pub open spec fn arena_after_despawn(v: ArenaView, e: Entity) -> ArenaView {
    if arena_is_alive(v, e) {
        ArenaView {
            metas: v.metas.update(
                e.idx() as int,
                EntityMeta { generation: next_generation(e.gen()), alive: false },
            ),
            free: v.free.push(e.idx()),
        }
    } else {
        v
    }
}

/// The live handle at slot `index` in `v`, if the slot exists and is live.
pub open spec fn arena_live_at(v: ArenaView, index: EntityIndex) -> Option<Entity> {
    if (index as int) < v.metas.len() && v.metas[index as int].alive {
        Some(Entity::spec_new(index, v.metas[index as int].generation))
    } else {
        None
    }
}

/// Number of live slots among `metas`.
pub open spec fn live_count(metas: Seq<EntityMeta>) -> nat
    decreases metas.len(),
{
    if metas.len() == 0 {
        0
    } else {
        live_count(metas.drop_last()) + if metas.last().alive {
            1nat
        } else {
            0nat
        }
    }
}

/// The live handles among `metas`, in slot order.
pub open spec fn live_handles(metas: Seq<EntityMeta>) -> Seq<Entity>
    decreases metas.len(),
{
    if metas.len() == 0 {
        Seq::empty()
    } else {
        let rest = live_handles(metas.drop_last());
        if metas.last().alive {
            rest.push(Entity::spec_new((metas.len() - 1) as u32, metas.last().generation))
        } else {
            rest
        }
    }
}

/// The entity arena of the world.
///
/// Holds one metadata record per slot and a free list of recyclable slots.
/// A slot is on the free list exactly when it is not live.
pub struct World {
    entities: Vec<EntityMeta>,
    free_list: Vec<EntityIndex>,
}

impl World {
    /// The abstract state of the arena.
    pub closed spec fn view(&self) -> ArenaView {
        ArenaView { metas: self.entities@, free: self.free_list@ }
    }

    /// Well-formedness: the free list holds exactly the dead slots, once each,
    /// and every slot index fits an `EntityIndex`.
    pub closed spec fn wf(&self) -> bool {
        &&& self.entities@.len() <= u32::MAX as int + 1
        &&& self.free_list@.no_duplicates()
        &&& forall|k: int|
            #![trigger self.free_list@[k]]
            0 <= k < self.free_list@.len() ==> (self.free_list@[k] as int) < self.entities@.len()
        &&& forall|i: int|
            #![trigger self.entities@[i]]
            0 <= i < self.entities@.len() ==> (!self.entities@[i].alive <==> self.free_list@.contains(
                i as u32,
            ))
    }

    /// An empty world.
    pub fn new() -> (w: World)
        ensures
            w.wf(),
            w@.metas == Seq::<EntityMeta>::empty(),
            w@.free == Seq::<EntityIndex>::empty(),
    {
        World { entities: Vec::new(), free_list: Vec::new() }
    }

    /// Whether `spawn` can hand out a handle: a slot is free, or an index
    /// below 2^32 is still unused.
    pub fn can_spawn(&self) -> (b: bool)
        ensures
            b == (self@.free.len() > 0 || self@.metas.len() <= u32::MAX),
    {
        self.free_list.len() > 0 || self.entities.len() <= u32::MAX as usize
    }

    /// Spawn a new entity, recycling the most recently freed slot if there is one.
    pub fn spawn(&mut self) -> (e: Entity)
        requires
            old(self).wf(),
            old(self)@.free.len() > 0 || old(self)@.metas.len() <= u32::MAX,
        ensures
            final(self).wf(),
            e == arena_spawned(old(self)@),
            final(self)@ == arena_after_spawn(old(self)@),
            arena_is_alive(final(self)@, e),
    {
        match self.free_list.pop() {
            Some(index) => {
                let ghost old_free = old(self).free_list@;
                let generation = self.entities[index as usize].generation;
                self.entities.set(index as usize, EntityMeta { generation, alive: true });
                proof {
                    assert(old_free.drop_last() =~= self.free_list@);
                    assert(old_free == self.free_list@.push(index));
                    assert forall|i: int|
                        #![trigger self.entities@[i]]
                        0 <= i < self.entities@.len() implies (!self.entities@[i].alive
                            <==> self.free_list@.contains(i as u32)) by {
                        if i == index as int {
                            assert(!self.free_list@.contains(index)) by {
                                if self.free_list@.contains(index) {
                                    let k = choose|k: int| 0 <= k < self.free_list@.len() && self.free_list@[k] == index;
                                    assert(old_free[k] == old_free[old_free.len() - 1]);
                                }
                            }
                        } else {
                            assert(old(self).entities@[i] == self.entities@[i]);
                            assert(old_free.contains(i as u32) == self.free_list@.contains(i as u32)) by {
                                if old_free.contains(i as u32) {
                                    let k = choose|k: int| 0 <= k < old_free.len() && old_free[k] == i as u32;
                                    assert(k != old_free.len() - 1);
                                    assert(self.free_list@[k] == i as u32);
                                }
                            }
                        }
                    }
                    lemma_pack_new(index, generation);
                }
                Entity::new(index, generation)
            },
            None => {
                let index = self.entities.len() as EntityIndex;
                self.entities.push(EntityMeta { generation: 0, alive: true });
                proof {
                    assert forall|i: int|
                        #![trigger self.entities@[i]]
                        0 <= i < self.entities@.len() implies (!self.entities@[i].alive
                            <==> self.free_list@.contains(i as u32)) by {
                        if i < old(self).entities@.len() {
                            assert(old(self).entities@[i] == self.entities@[i]);
                        }
                    }
                }
                Entity::new(index, 0)
            },
        }
    }

    /// Despawn an entity. Returns `false` (and changes nothing) when the handle
    /// is not alive; otherwise releases its slot with the next generation.
    pub fn despawn(&mut self, entity: Entity) -> (r: bool)
        requires
            old(self).wf(),
        ensures
            final(self).wf(),
            r == arena_is_alive(old(self)@, entity),
            final(self)@ == arena_after_despawn(old(self)@, entity),
    {
        if !self.is_alive(entity) {
            return false;
        }
        let index = entity.index();
        let generation = self.entities[index as usize].generation.wrapping_add(1);
        assert(generation == next_generation(entity.gen()));
        self.entities.set(index as usize, EntityMeta { generation, alive: false });
        let ghost old_free = self.free_list@;
        self.free_list.push(index);
        proof {
            assert(!old_free.contains(index));
            assert forall|a: int, b: int|
                0 <= a < self.free_list@.len() && 0 <= b < self.free_list@.len() && a != b
                implies self.free_list@[a] != self.free_list@[b] by {
                if a == old_free.len() {
                    assert(old_free[b] == self.free_list@[b]);
                } else if b == old_free.len() {
                    assert(old_free[a] == self.free_list@[a]);
                } else {
                    assert(old_free[a] == self.free_list@[a]);
                    assert(old_free[b] == self.free_list@[b]);
                }
            }
            assert forall|i: int|
                #![trigger self.entities@[i]]
                0 <= i < self.entities@.len() implies (!self.entities@[i].alive
                    <==> self.free_list@.contains(i as u32)) by {
                if i != index as int {
                    assert(old(self).entities@[i] == self.entities@[i]);
                    if self.free_list@.contains(i as u32) {
                        let k = choose|k: int| 0 <= k < self.free_list@.len() && self.free_list@[k] == i as u32;
                        assert(k != old_free.len());
                        assert(old_free[k] == i as u32);
                    }
                    if old_free.contains(i as u32) {
                        let k = choose|k: int| 0 <= k < old_free.len() && old_free[k] == i as u32;
                        assert(self.free_list@[k] == i as u32);
                    }
                } else {
                    assert(self.free_list@[old_free.len() as int] == index);
                }
            }
        }
        true
    }

    /// Returns `true` if the entity is alive.
    pub fn is_alive(&self, entity: Entity) -> (b: bool)
        ensures
            b == arena_is_alive(self@, entity),
    {
        let index = entity.index() as usize;
        if index < self.entities.len() {
            let meta = self.entities[index];
            meta.alive && meta.generation == entity.generation()
        } else {
            false
        }
    }

    /// The live entity at slot `index`, whatever its generation; `None` when
    /// the slot does not exist or is free.
    pub fn live_at(&self, index: EntityIndex) -> (r: Option<Entity>)
        ensures
            r == arena_live_at(self@, index),
            r matches Some(e) ==> arena_is_alive(self@, e) && e.idx() == index,
    {
        let i = index as usize;
        if i < self.entities.len() && self.entities[i].alive {
            Some(Entity::new(index, self.entities[i].generation))
        } else {
            None
        }
    }

    /// Total number of alive entities.
    pub fn entity_count(&self) -> (n: usize)
        ensures
            n == live_count(self@.metas),
    {
        let mut n: usize = 0;
        let mut i: usize = 0;
        while i < self.entities.len()
            invariant
                i <= self.entities@.len(),
                n == live_count(self.entities@.subrange(0, i as int)),
                n <= i,
            decreases self.entities@.len() - i,
        {
            assert(self.entities@.subrange(0, i + 1).drop_last() =~= self.entities@.subrange(0, i as int));
            if self.entities[i].alive {
                n = n + 1;
            }
            i = i + 1;
        }
        assert(self.entities@.subrange(0, i as int) =~= self.entities@);
        n
    }

    /// All alive entities, in slot order.
    pub fn entities(&self) -> (v: Vec<Entity>)
        requires
            self.wf(),
        ensures
            v@ == live_handles(self@.metas),
    {
        let mut v: Vec<Entity> = Vec::new();
        let mut i: usize = 0;
        while i < self.entities.len()
            invariant
                i <= self.entities@.len(),
                self.entities@.len() <= u32::MAX as int + 1,
                v@ == live_handles(self.entities@.subrange(0, i as int)),
            decreases self.entities@.len() - i,
        {
            assert(self.entities@.subrange(0, i + 1).drop_last() =~= self.entities@.subrange(0, i as int));
            let meta = self.entities[i];
            if meta.alive {
                v.push(Entity::new(i as u32, meta.generation));
            }
            i = i + 1;
        }
        assert(self.entities@.subrange(0, i as int) =~= self.entities@);
        v
    }

    /// Release every slot: all entities die, every generation advances, and
    /// every index goes on the free list in ascending order.
    pub fn clear_entities(&mut self)
        requires
            old(self).wf(),
        ensures
            final(self).wf(),
            final(self)@.metas.len() == old(self)@.metas.len(),
            forall|i: int|
                #![trigger final(self)@.metas[i]]
                0 <= i < final(self)@.metas.len() ==> final(self)@.metas[i] == (EntityMeta {
                    generation: next_generation(old(self)@.metas[i].generation),
                    alive: false,
                }),
            final(self)@.free == Seq::new(old(self)@.metas.len(), |i: int| i as EntityIndex),
    {
        let n = self.entities.len();
        let mut i: usize = 0;
        while i < n
            invariant
                n == self.entities@.len(),
                n == old(self).entities@.len(),
                i <= n,
                forall|j: int|
                    #![trigger self.entities@[j]]
                    0 <= j < i ==> self.entities@[j] == (EntityMeta {
                        generation: next_generation(old(self).entities@[j].generation),
                        alive: false,
                    }),
                forall|j: int|
                    #![trigger self.entities@[j]]
                    i <= j < n ==> self.entities@[j] == old(self).entities@[j],
            decreases n - i,
        {
            let g = self.entities[i].generation.wrapping_add(1);
            assert(g == next_generation(old(self).entities@[i as int].generation));
            self.entities.set(i, EntityMeta { generation: g, alive: false });
            i = i + 1;
        }
        self.free_list.clear();
        let mut k: usize = 0;
        while k < n
            invariant
                n == self.entities@.len(),
                n <= u32::MAX as int + 1,
                k <= n,
                forall|j: int|
                    #![trigger self.entities@[j]]
                    0 <= j < n ==> self.entities@[j] == (EntityMeta {
                        generation: next_generation(old(self).entities@[j].generation),
                        alive: false,
                    }),
                self.free_list@ == Seq::new(k as nat, |j: int| j as EntityIndex),
            decreases n - k,
        {
            self.free_list.push(k as u32);
            assert(self.free_list@ =~= Seq::new((k + 1) as nat, |j: int| j as EntityIndex));
            k = k + 1;
        }
        proof {
            assert forall|i: int|
                #![trigger self.entities@[i]]
                0 <= i < self.entities@.len() implies (!self.entities@[i].alive
                    <==> self.free_list@.contains(i as u32)) by {
                assert(self.free_list@[i] == i as u32);
            }
            assert forall|a: int, b: int|
                0 <= a < self.free_list@.len() && 0 <= b < self.free_list@.len() && a != b
                implies self.free_list@[a] != self.free_list@[b] by {
            }
        }
    }
}

/// Law: a freshly spawned handle is alive.
pub proof fn law_spawned_is_alive(w: World)
    requires
        w.wf(),
        w@.free.len() > 0 || w@.metas.len() <= u32::MAX,
    ensures
        arena_is_alive(arena_after_spawn(w@), arena_spawned(w@)),
{
    if w@.free.len() > 0 {
        let i = w@.free.last();
        assert(w@.free[w@.free.len() - 1] == i);
        lemma_pack_new(i, w@.metas[i as int].generation);
    } else {
        lemma_pack_new(w@.metas.len() as u32, 0);
    }
}

/// Law: despawning a live handle kills it, and leaves every live handle of
/// another slot alive.
pub proof fn law_despawn_kills_only_its_slot(v: ArenaView, e: Entity, other: Entity)
    requires
        arena_is_alive(v, e),
    ensures
        !arena_is_alive(arena_after_despawn(v, e), e),
        other.idx() != e.idx() ==> (arena_is_alive(arena_after_despawn(v, e), other)
            == arena_is_alive(v, other)),
{
}

/// Law: despawning a handle that is not alive changes nothing.
pub proof fn law_despawn_dead_is_noop(v: ArenaView, e: Entity)
    requires
        !arena_is_alive(v, e),
    ensures
        arena_after_despawn(v, e) == v,
{
}

/// Law: the slot of a despawned entity is the next one recycled, with its
/// generation advanced by one (wrapping), so the new handle differs from the
/// old one and the old handle stays dead.
pub proof fn law_recycle_after_despawn(v: ArenaView, e: Entity)
    requires
        arena_is_alive(v, e),
    ensures
        arena_spawned(arena_after_despawn(v, e)) == Entity::spec_new(e.idx(), next_generation(e.gen())),
        arena_spawned(arena_after_despawn(v, e)) != e,
        arena_is_alive(
            arena_after_spawn(arena_after_despawn(v, e)),
            arena_spawned(arena_after_despawn(v, e)),
        ),
        !arena_is_alive(arena_after_spawn(arena_after_despawn(v, e)), e),
{
    let d = arena_after_despawn(v, e);
    assert(d.free.last() == e.idx());
    lemma_pack_new(e.idx(), next_generation(e.gen()));
}

/// Law: `entities` lists exactly `entity_count` handles, each of them alive.
pub proof fn law_listing_matches_count(metas: Seq<EntityMeta>)
    requires
        metas.len() <= u32::MAX as int + 1,
    ensures
        live_handles(metas).len() == live_count(metas),
        forall|k: int|
            0 <= k < live_handles(metas).len() ==> arena_is_alive(
                ArenaView { metas, free: Seq::empty() },
                #[trigger] live_handles(metas)[k],
            ),
    decreases metas.len(),
{
    if metas.len() > 0 {
        let init = metas.drop_last();
        law_listing_matches_count(init);
        let n = (metas.len() - 1) as u32;
        let g = metas.last().generation;
        lemma_pack_new(n, g);
        assert forall|k: int| 0 <= k < live_handles(metas).len() implies arena_is_alive(
            ArenaView { metas, free: Seq::empty() },
            #[trigger] live_handles(metas)[k],
        ) by {
            if k < live_handles(init).len() {
                let e = live_handles(init)[k];
                assert(arena_is_alive(ArenaView { metas: init, free: Seq::empty() }, e));
                assert(metas[e.idx() as int] == init[e.idx() as int]);
            }
        }
    }
}

/// Whether a slot holds a live entity, whatever its generation.
pub open spec fn slot_is_live(m: EntityMeta) -> bool {
    m.alive
}

/// Law: counting and listing miss no live entity. `entity_count` is the
/// number of live slots, whatever their generations, and `entities` lists
/// the handle of every live slot: its index with the slot's generation.
pub proof fn law_count_and_listing_complete(metas: Seq<EntityMeta>)
    requires
        metas.len() <= u32::MAX as int + 1,
    ensures
        live_count(metas) == metas.filter(|m: EntityMeta| slot_is_live(m)).len(),
        forall|i: int|
            0 <= i < metas.len() && #[trigger] metas[i].alive ==> live_handles(metas).contains(
                Entity::spec_new(i as u32, metas[i].generation),
            ),
    decreases metas.len(),
{
    reveal(Seq::filter);
    if metas.len() > 0 {
        let init = metas.drop_last();
        law_count_and_listing_complete(init);
        let pred = |m: EntityMeta| slot_is_live(m);
        assert(metas.filter(pred) == if pred(metas.last()) {
            init.filter(pred).push(metas.last())
        } else {
            init.filter(pred)
        });
        assert forall|i: int|
            0 <= i < metas.len() && #[trigger] metas[i].alive implies live_handles(metas).contains(
                Entity::spec_new(i as u32, metas[i].generation),
            ) by {
            if i < metas.len() - 1 {
                assert(init[i] == metas[i]);
                assert(init[i].alive);
                let e = Entity::spec_new(i as u32, metas[i].generation);
                assert(live_handles(init).contains(e));
                let k = choose|k: int| 0 <= k < live_handles(init).len() && live_handles(init)[k] == e;
                if metas.last().alive {
                    assert(live_handles(metas)[k] == e);
                }
            } else {
                let e = Entity::spec_new(i as u32, metas[i].generation);
                assert(live_handles(metas).last() == e);
                assert(live_handles(metas)[live_handles(metas).len() - 1] == e);
            }
        }
    }
}

/// `Entity::new` packs exactly the handle `Entity::spec_new` describes.
proof fn lemma_pack_new(index: u32, generation: u32)
    ensures
        Entity::spec_new(index, generation).idx() == index,
        Entity::spec_new(index, generation).gen() == generation,
{
    let e = Entity::spec_new(index, generation);
    crate::entity::law_entity_roundtrip(e, e, index, generation);
}

} // verus!
