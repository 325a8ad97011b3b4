//! Component trait and sparse-set storage.

use vstd::prelude::*;

use crate::entity::{Entity, EntityIndex};

use std::any::TypeId;

verus! {

/// `std::any::TypeId`, carried through opaquely.
#[verifier::external_type_specification]
#[verifier::external_body]
pub struct ExTypeId(TypeId);

/// Calls `std::any::TypeId::of::<T>()`. Nothing is stated of the result: its
/// value is not specified by std beyond identifying the type.
#[verifier::external_body]
fn type_id_of<T: 'static>() -> TypeId {
    TypeId::of::<T>()
}

/// Marker trait for components. Any `'static + Send + Sync` type is a component.
pub trait Component: 'static + Send + Sync {}

impl<T: 'static + Send + Sync> Component for T {}

/// Marker for an arena index that holds no component.
pub const EMPTY: u32 = 0xffff_ffffu32;

/// The abstract content of a storage: for each arena index that holds a
/// component, the handle recorded when the component was first inserted and
/// the component value.
pub type ComponentMap<T> = Map<EntityIndex, (Entity, T)>;

/// What `insert(entity, value)` makes of the content `m`: an index that
/// already holds a component keeps its recorded handle and gets the new value;
/// a fresh index records `entity`.
pub open spec fn map_insert<T>(m: ComponentMap<T>, entity: Entity, value: T) -> ComponentMap<T> {
    if m.dom().contains(entity.idx()) {
        m.insert(entity.idx(), (m[entity.idx()].0, value))
    } else {
        m.insert(entity.idx(), (entity, value))
    }
}

/// What `remove(entity)` makes of the content `m`: the entry of the handle's index is gone.
pub open spec fn map_remove<T>(m: ComponentMap<T>, entity: Entity) -> ComponentMap<T> {
    m.remove(entity.idx())
}

/// What `get(entity)` reads from the content `m`: lookup is by arena index.
pub open spec fn map_get<T>(m: ComponentMap<T>, entity: Entity) -> Option<T> {
    if m.dom().contains(entity.idx()) {
        Some(m[entity.idx()].1)
    } else {
        None
    }
}

/// Law: after `insert(e, v)`, `get(e)` yields `v`, and every other index reads as before.
pub proof fn law_insert_then_get<T>(m: ComponentMap<T>, e: Entity, v: T, other: Entity)
    ensures
        map_get(map_insert(m, e, v), e) == Some(v),
        other.idx() != e.idx() ==> map_get(map_insert(m, e, v), other) == map_get(m, other),
{
}

/// Law: after `remove(e)`, `get(e)` yields nothing, and every other index reads as before.
pub proof fn law_remove_then_get<T>(m: ComponentMap<T>, e: Entity, other: Entity)
    ensures
        map_get(map_remove(m, e), e) is None,
        other.idx() != e.idx() ==> map_get(map_remove(m, e), other) == map_get(m, other),
{
}

/// Law: inserting twice at the same index keeps only the last value, and
/// the handle recorded by the first insertion.
pub proof fn law_insert_overwrites<T>(m: ComponentMap<T>, e: Entity, f: Entity, v: T, w: T)
    requires
        e.idx() == f.idx(),
    ensures
        map_insert(map_insert(m, e, v), f, w) == map_insert(m, e, w),
{
    assert(map_insert(map_insert(m, e, v), f, w) =~= map_insert(m, e, w));
}

/// Law: removing what was just inserted at a fresh index restores the content.
pub proof fn law_insert_remove_roundtrip<T>(m: ComponentMap<T>, e: Entity, v: T)
    requires
        !m.dom().contains(e.idx()),
    ensures
        map_remove(map_insert(m, e, v), e) == m,
{
    assert(map_remove(map_insert(m, e, v), e) =~= m);
}

/// A change made to a storage's content through `insert`, `remove` or
/// `remove_entity`.
pub enum StorageChange {
    /// A component was inserted for this entity.
    Insert(Entity),
    /// The component of this entity was removed.
    Remove(Entity),
}

/// Whether `m` became `w` by `change` (with whatever value an insert stored).
pub open spec fn stored_by<T>(m: ComponentMap<T>, change: StorageChange, w: ComponentMap<T>) -> bool {
    match change {
        StorageChange::Insert(e) => w == map_insert(m, e, w[e.idx()].1),
        StorageChange::Remove(e) => w == map_remove(m, e),
    }
}

/// Whether `change` inserts at arena index `i`.
pub open spec fn inserts_at(change: StorageChange, i: EntityIndex) -> bool {
    change matches StorageChange::Insert(e) && e.idx() == i
}

/// Whether `change` removes at arena index `i`.
pub open spec fn removes_at(change: StorageChange, i: EntityIndex) -> bool {
    change matches StorageChange::Remove(e) && e.idx() == i
}

/// Whether, among the first `n` changes, one inserted at index `i` and none
/// after it removed at `i`.
pub open spec fn inserted_and_kept(changes: Seq<StorageChange>, i: EntityIndex, n: int) -> bool {
    exists|k: int|
        #![trigger changes[k]]
        0 <= k < n && inserts_at(changes[k], i) && forall|j: int|
            #![trigger changes[j]]
            k < j < n ==> !removes_at(changes[j], i)
}

/// The indices held after the first `n` changes of a run from an empty
/// storage are those inserted and not removed since.
proof fn lemma_run_held_indices<T>(maps: Seq<ComponentMap<T>>, changes: Seq<StorageChange>, n: int)
    requires
        maps.len() == changes.len() + 1,
        maps[0].dom() == Set::<EntityIndex>::empty(),
        forall|k: int| 0 <= k < changes.len() ==> stored_by(maps[k], #[trigger] changes[k], maps[k + 1]),
        0 <= n <= changes.len(),
    ensures
        forall|i: EntityIndex| #[trigger] maps[n].dom().contains(i) <==> inserted_and_kept(changes, i, n),
    decreases n,
{
    if n == 0 {
        assert forall|i: EntityIndex| #[trigger] maps[n].dom().contains(i) <==> inserted_and_kept(changes, i, n) by {
            assert(!maps[0].dom().contains(i));
        }
    } else {
        lemma_run_held_indices(maps, changes, n - 1);
        let c = changes[n - 1];
        let m = maps[n - 1];
        let w = maps[n];
        assert(stored_by(m, c, w));
        assert forall|i: EntityIndex| #[trigger] maps[n].dom().contains(i) <==> inserted_and_kept(changes, i, n) by {
            if w.dom().contains(i) {
                if inserts_at(c, i) {
                    assert(forall|j: int| #![trigger changes[j]] n - 1 < j < n ==> !removes_at(changes[j], i));
                    assert(inserts_at(changes[n - 1], i));
                } else {
                    assert(m.dom().contains(i));
                    assert(inserted_and_kept(changes, i, n - 1));
                    let k = choose|k: int|
                        #![trigger changes[k]]
                        0 <= k < n - 1 && inserts_at(changes[k], i) && forall|j: int|
                            #![trigger changes[j]]
                            k < j < n - 1 ==> !removes_at(changes[j], i);
                    assert(!removes_at(changes[n - 1], i));
                    assert(forall|j: int| #![trigger changes[j]] k < j < n ==> !removes_at(changes[j], i));
                    assert(inserts_at(changes[k], i));
                }
            }
            if inserted_and_kept(changes, i, n) {
                let k = choose|k: int|
                    #![trigger changes[k]]
                    0 <= k < n && inserts_at(changes[k], i) && forall|j: int|
                        #![trigger changes[j]]
                        k < j < n ==> !removes_at(changes[j], i);
                if k < n - 1 {
                    assert(forall|j: int| #![trigger changes[j]] k < j < n - 1 ==> !removes_at(changes[j], i));
                    assert(inserts_at(changes[k], i));
                    assert(inserted_and_kept(changes, i, n - 1));
                    assert(!removes_at(changes[n - 1], i));
                }
            }
        }
    }
}

/// In a run from an empty storage, the content stays finite.
proof fn lemma_run_finite<T>(maps: Seq<ComponentMap<T>>, changes: Seq<StorageChange>, n: int)
    requires
        maps.len() == changes.len() + 1,
        maps[0].dom() == Set::<EntityIndex>::empty(),
        forall|k: int| 0 <= k < changes.len() ==> stored_by(maps[k], #[trigger] changes[k], maps[k + 1]),
        0 <= n <= changes.len(),
    ensures
        maps[n].dom().finite(),
    decreases n,
{
    if n > 0 {
        lemma_run_finite(maps, changes, n - 1);
        assert(stored_by(maps[n - 1], changes[n - 1], maps[n]));
        match changes[n - 1] {
            StorageChange::Insert(e) => {
                assert(maps[n].dom() =~= maps[n - 1].dom().insert(e.idx()));
            },
            StorageChange::Remove(e) => {
                assert(maps[n].dom() =~= maps[n - 1].dom().remove(e.idx()));
            },
        }
    }
}

/// Law: a storage holds exactly the indices inserted and not removed since,
/// so its length (which `len` gives) is the number of such indices. In any run of inserts and
/// removals from an empty storage, the indices held at the end are those at
/// which some change inserted and no later change removed.
pub proof fn law_held_indices_history<T>(maps: Seq<ComponentMap<T>>, changes: Seq<StorageChange>)
    requires
        maps.len() == changes.len() + 1,
        maps[0].dom() == Set::<EntityIndex>::empty(),
        forall|k: int| 0 <= k < changes.len() ==> stored_by(maps[k], #[trigger] changes[k], maps[k + 1]),
    ensures
        maps.last().dom() == Set::new(|i: EntityIndex| inserted_and_kept(changes, i, changes.len() as int)),
        maps.last().dom().finite(),
        maps.last().len() == Set::new(|i: EntityIndex| inserted_and_kept(changes, i, changes.len() as int)).len(),
{
    lemma_run_held_indices(maps, changes, changes.len() as int);
    lemma_run_finite(maps, changes, changes.len() as int);
    assert(maps.last().dom() =~= Set::new(|i: EntityIndex| inserted_and_kept(changes, i, changes.len() as int)));
}

/// Sparse-set storage for a single component type.
///
/// Layout:
/// - `sparse`: entity-index → dense-index (or `EMPTY`)
/// - `dense`:  entity handles, contiguous
/// - `data`:   component values, contiguous, parallel to `dense`
///
/// This gives O(1) lookup by entity and linear iteration over dense arrays.
pub struct ComponentStorage<T> {
    sparse: Vec<u32>,
    dense: Vec<Entity>,
    data: Vec<T>,
    type_id: TypeId,
}

impl<T> ComponentStorage<T> {
    /// Well-formedness: `sparse` and `dense` point at each other.
    pub closed spec fn wf(&self) -> bool {
        &&& self.dense@.len() == self.data@.len()
        &&& self.dense@.len() <= u32::MAX
        &&& forall|k: int|
            #![trigger self.dense@[k]]
            0 <= k < self.dense@.len() ==> {
                &&& (self.dense@[k].idx() as int) < self.sparse@.len()
                &&& self.sparse@[self.dense@[k].idx() as int] == k
            }
        &&& forall|j: int|
            #![trigger self.sparse@[j]]
            0 <= j < self.sparse@.len() && self.sparse@[j] != EMPTY ==> {
                &&& (self.sparse@[j] as int) < self.dense@.len()
                &&& self.dense@[self.sparse@[j] as int].idx() == j
            }
    }

    /// True when arena index `i` holds a component.
    closed spec fn holds(&self, i: u32) -> bool {
        (i as int) < self.sparse@.len() && self.sparse@[i as int] != EMPTY
    }

    /// The content of the storage.
    pub closed spec fn view(&self) -> ComponentMap<T> {
        Map::new(
            |i: u32| self.holds(i),
            |i: u32| (self.dense@[self.sparse@[i as int] as int], self.data@[self.sparse@[i as int] as int]),
        )
    }

    /// The dense list of handles, in storage order.
    pub closed spec fn entity_seq(&self) -> Seq<Entity> {
        self.dense@
    }

    /// The dense list of values, parallel to `entity_seq`.
    pub closed spec fn value_seq(&self) -> Seq<T> {
        self.data@
    }

    /// The position in the dense lists of the component at arena index `i`.
    pub closed spec fn slot(&self, i: u32) -> int {
        self.sparse@[i as int] as int
    }

    /// The dense lists enumerate the content exactly: position `k` holds the
    /// entry of index `entity_seq()[k].idx()`, no index occurs twice, and
    /// every entry of the content has a position.
    pub proof fn lemma_dense_enumerates(&self)
        requires
            self.wf(),
        ensures
            self.entity_seq().len() == self.value_seq().len(),
            forall|k: int|
                #![trigger self.entity_seq()[k]]
                0 <= k < self.entity_seq().len() ==> {
                    &&& self@.dom().contains(self.entity_seq()[k].idx())
                    &&& self@[self.entity_seq()[k].idx()] == (self.entity_seq()[k], self.value_seq()[k])
                    &&& self.slot(self.entity_seq()[k].idx()) == k
                },
            forall|i: u32|
                #![trigger self@.dom().contains(i)]
                self@.dom().contains(i) ==> {
                    &&& 0 <= self.slot(i) < self.entity_seq().len()
                    &&& self.entity_seq()[self.slot(i)].idx() == i
                },
            forall|k1: int, k2: int|
                #![trigger self.entity_seq()[k1], self.entity_seq()[k2]]
                0 <= k1 < self.entity_seq().len() && 0 <= k2 < self.entity_seq().len() && k1 != k2
                    ==> self.entity_seq()[k1].idx() != self.entity_seq()[k2].idx(),
    {
        assert forall|k: int|
            #![trigger self.entity_seq()[k]]
            0 <= k < self.entity_seq().len() implies {
                &&& self@.dom().contains(self.entity_seq()[k].idx())
                &&& self@[self.entity_seq()[k].idx()] == (self.entity_seq()[k], self.value_seq()[k])
                &&& self.slot(self.entity_seq()[k].idx()) == k
            } by {
            let i = self.dense@[k].idx();
            assert(self.sparse@[i as int] == k);
            assert(self.holds(i));
        }
    }

    /// The content holds exactly as many entries as the dense list.
    pub proof fn lemma_count(&self)
        requires
            self.wf(),
        ensures
            self@.dom().finite(),
            self@.len() == self.entity_seq().len(),
    {
        self.lemma_dense_enumerates();
        let idxs = self.entity_seq().map_values(|e: Entity| e.idx());
        assert forall|a: int, b: int| 0 <= a < idxs.len() && 0 <= b < idxs.len() && a != b implies idxs[a]
            != idxs[b] by {
            assert(self.entity_seq()[a].idx() != self.entity_seq()[b].idx());
        }
        assert(idxs.no_duplicates());
        idxs.unique_seq_to_set();
        assert forall|i: u32| #[trigger] self@.dom().contains(i) <==> idxs.to_set().contains(i) by {
            if self@.dom().contains(i) {
                let k = self.slot(i);
                assert(idxs[k] == i);
            }
            if idxs.to_set().contains(i) {
                let k = choose|k: int| 0 <= k < idxs.len() && idxs[k] == i;
                assert(self.entity_seq()[k].idx() == i);
            }
        }
        assert(self@.dom() =~= idxs.to_set());
    }

    /// The recorded type id of the stored component type.
    pub closed spec fn spec_type_id(&self) -> TypeId {
        self.type_id
    }

    /// Get the TypeId of the stored component.
    pub fn type_id(&self) -> (t: TypeId)
        ensures
            t == self.spec_type_id(),
    {
        self.type_id
    }

    /// Number of stored components.
    pub fn len(&self) -> (n: usize)
        requires
            self.wf(),
        ensures
            n == self.entity_seq().len(),
            n == self@.len(),
            self@.dom().finite(),
    {
        proof {
            self.lemma_count();
        }
        self.dense.len()
    }

    /// True when no component is stored.
    pub fn is_empty(&self) -> (b: bool)
        requires
            self.wf(),
        ensures
            b == (self.entity_seq().len() == 0),
            b == (self@.len() == 0),
    {
        proof {
            self.lemma_count();
        }
        self.dense.len() == 0
    }

    /// Ensure the sparse array is large enough for `entity_index`.
    fn ensure_sparse(&mut self, entity_index: EntityIndex)
        requires
            old(self).wf(),
            (entity_index as int) < usize::MAX,
        ensures
            final(self).wf(),
            final(self)@ == old(self)@,
            final(self).entity_seq() == old(self).entity_seq(),
            final(self).value_seq() == old(self).value_seq(),
            forall|i: u32| old(self)@.dom().contains(i) ==> final(self).slot(i) == old(self).slot(i),
            final(self).spec_type_id() == old(self).spec_type_id(),
            (entity_index as int) < final(self).sparse@.len(),
    {
        let needed = entity_index as usize + 1;
        if self.sparse.len() < needed {
            let ghost old_sparse = self.sparse@;
            self.sparse.resize(needed, EMPTY);
            assert(self.sparse@.subrange(0, old_sparse.len() as int) == old_sparse);
            assert forall|j: int| 0 <= j < self.sparse@.len() && j >= old_sparse.len()
                implies self.sparse@[j] == EMPTY by {
                assert(cloned::<u32>(EMPTY, self.sparse@[j]));
            }
            assert forall|j: int| 0 <= j < old_sparse.len() implies self.sparse@[j] == old_sparse[j] by {
                assert(self.sparse@.subrange(0, old_sparse.len() as int)[j] == self.sparse@[j]);
            }
            assert forall|k: int|
                #![trigger self.dense@[k]]
                0 <= k < self.dense@.len() implies {
                    &&& (self.dense@[k].idx() as int) < self.sparse@.len()
                    &&& self.sparse@[self.dense@[k].idx() as int] == k
                } by {
                assert(old_sparse[self.dense@[k].idx() as int] == k);
            }
            assert forall|j: int|
                #![trigger self.sparse@[j]]
                0 <= j < self.sparse@.len() && self.sparse@[j] != EMPTY implies {
                    &&& (self.sparse@[j] as int) < self.dense@.len()
                    &&& self.dense@[self.sparse@[j] as int].idx() == j
                } by {
                if j >= old_sparse.len() {
                    assert(self.sparse@[j] == EMPTY);
                } else {
                    assert(old_sparse[j] == self.sparse@[j]);
                }
            }
            assert(self@ =~= old(self)@);
        }
    }

    /// Insert a component for `entity`, overwriting if its index already holds one.
    pub fn insert(&mut self, entity: Entity, value: T)
        requires
            old(self).wf(),
            (entity.idx() as int) < usize::MAX,
            old(self)@.dom().contains(entity.idx()) || old(self).entity_seq().len() < u32::MAX,
        ensures
            final(self).spec_type_id() == old(self).spec_type_id(),
            final(self).wf(),
            final(self)@ == map_insert(old(self)@, entity, value),
            stored_by(old(self)@, StorageChange::Insert(entity), final(self)@),
            old(self)@.dom().contains(entity.idx()) ==> final(self).entity_seq() == old(self).entity_seq(),
            !old(self)@.dom().contains(entity.idx()) ==> final(self).entity_seq() == old(self).entity_seq().push(entity),
    {
        let i = entity.index();
        self.ensure_sparse(i);
        let sparse_idx = self.sparse[i as usize];
        if sparse_idx != EMPTY {
            let k = sparse_idx as usize;
            let ghost old_data = self.data@;
            self.data.set(k, value);
            assert(self@ =~= map_insert(old(self)@, entity, value)) by {
                assert forall|j: u32| self.holds(j) && j != i implies self.sparse@[j as int] != k by {}
            }
        } else {
            let dense_idx = self.dense.len();
            self.dense.push(entity);
            self.data.push(value);
            self.sparse.set(i as usize, dense_idx as u32);
            assert(self@ =~= map_insert(old(self)@, entity, value));
        }
    }

    /// Remove the component from `entity`'s index. Returns `true` if it existed.
    /// The last dense entry moves into the freed position.
    pub fn remove(&mut self, entity: Entity) -> (existed: bool)
        requires
            old(self).wf(),
        ensures
            final(self).spec_type_id() == old(self).spec_type_id(),
            final(self).wf(),
            existed == old(self)@.dom().contains(entity.idx()),
            final(self)@ == map_remove(old(self)@, entity),
            stored_by(old(self)@, StorageChange::Remove(entity), final(self)@),
            existed ==> final(self).entity_seq() == old(self).entity_seq().update(
                old(self).slot(entity.idx()),
                old(self).entity_seq().last(),
            ).drop_last(),
            !existed ==> final(self).entity_seq() == old(self).entity_seq(),
    {
        let i = entity.index();
        if i as usize >= self.sparse.len() {
            assert(old(self)@ =~= map_remove(old(self)@, entity));
            return false;
        }
        let sparse_idx = self.sparse[i as usize];
        if sparse_idx == EMPTY {
            assert(old(self)@ =~= map_remove(old(self)@, entity));
            return false;
        }
        let k = sparse_idx as usize;
        let last = self.dense.len() - 1;
        let swapped = self.dense[last];
        let _removed = self.data.swap_remove(k);
        self.dense.swap_remove(k);
        if k != last {
            self.sparse.set(swapped.index() as usize, k as u32);
        }
        self.sparse.set(i as usize, EMPTY);
        assert(self@ =~= map_remove(old(self)@, entity));
        true
    }

    /// Get a reference to the component at `entity`'s index.
    pub fn get(&self, entity: Entity) -> (r: Option<&T>)
        requires
            self.wf(),
        ensures
            r matches Some(v) ==> map_get(self@, entity) == Some(*v),
            r is None ==> map_get(self@, entity) is None,
    {
        let i = entity.index();
        if i as usize >= self.sparse.len() {
            return None;
        }
        let sparse_idx = self.sparse[i as usize];
        if sparse_idx == EMPTY {
            return None;
        }
        Some(&self.data[sparse_idx as usize])
    }

    /// Get a mutable reference to the component at `entity`'s index. Whatever
    /// is written through it becomes the value of that entry.
    pub fn get_mut(&mut self, entity: Entity) -> (r: Option<&mut T>)
        requires
            old(self).wf(),
        ensures
            final(self).spec_type_id() == old(self).spec_type_id(),
            final(self).wf(),
            final(self).entity_seq() == old(self).entity_seq(),
            r is Some <==> old(self)@.dom().contains(entity.idx()),
            r matches Some(v) ==> {
                &&& *v == old(self)@[entity.idx()].1
                &&& final(self)@ == old(self)@.insert(entity.idx(), (old(self)@[entity.idx()].0, *final(v)))
            },
            r is None ==> final(self)@ == old(self)@,
    {
        let i = entity.index();
        if i as usize >= self.sparse.len() {
            return None;
        }
        let sparse_idx = self.sparse[i as usize];
        if sparse_idx == EMPTY {
            return None;
        }
        Some(&mut self.data[sparse_idx as usize])
    }

    /// Returns `true` if `entity`'s index holds a component.
    pub fn contains(&self, entity: Entity) -> (b: bool)
        requires
            self.wf(),
        ensures
            b == self@.dom().contains(entity.idx()),
    {
        let i = entity.index();
        if i as usize >= self.sparse.len() {
            return false;
        }
        self.sparse[i as usize] != EMPTY
    }

    /// Dense entity list.
    pub fn entities(&self) -> (s: &[Entity])
        requires
            self.wf(),
        ensures
            s@ == self.entity_seq(),
    {
        self.dense.as_slice()
    }

    /// Dense value list, parallel to `entities`.
    pub fn values(&self) -> (s: &[T])
        requires
            self.wf(),
        ensures
            s@ == self.value_seq(),
    {
        self.data.as_slice()
    }

    /// The dense entity list together with mutable access to the parallel
    /// value list. The values afterwards are whatever was written through the
    /// value slice; handles and indices do not change. (A slice cannot change
    /// its length; the storage stays well formed given that fact.)
    pub fn entities_and_values_mut(&mut self) -> (r: (&[Entity], &mut [T]))
        requires
            old(self).wf(),
        ensures
            final(self).spec_type_id() == old(self).spec_type_id(),
            r.0@ == old(self).entity_seq(),
            r.1@ == old(self).value_seq(),
            final(self).entity_seq() == old(self).entity_seq(),
            final(self).value_seq() == final(r.1)@,
            final(r.1)@.len() == r.1@.len() ==> final(self).wf(),
            final(r.1)@.len() == r.1@.len() ==> final(self)@.dom() == old(self)@.dom(),
    {
        (self.dense.as_slice(), self.data.as_mut_slice())
    }

    /// Remove the component of a despawned entity.
    pub fn remove_entity(&mut self, entity: Entity)
        requires
            old(self).wf(),
        ensures
            final(self).spec_type_id() == old(self).spec_type_id(),
            final(self).wf(),
            final(self)@ == map_remove(old(self)@, entity),
            stored_by(old(self)@, StorageChange::Remove(entity), final(self)@),
    {
        self.remove(entity);
    }
}

impl<T: Component> ComponentStorage<T> {
    /// Create an empty storage for component type `T`.
    pub fn new() -> (s: Self)
        ensures
            s.wf(),
            s@ == Map::<EntityIndex, (Entity, T)>::empty(),
            s.entity_seq() == Seq::<Entity>::empty(),
    {
        let s = ComponentStorage {
            sparse: Vec::new(),
            dense: Vec::new(),
            data: Vec::new(),
            type_id: type_id_of::<T>(),
        };
        assert(s@ =~= Map::<EntityIndex, (Entity, T)>::empty());
        s
    }
}

} // verus!
