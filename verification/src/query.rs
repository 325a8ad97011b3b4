//! Query system — iterate over the entities that hold a component.

use vstd::prelude::*;

use std::marker::PhantomData;

use crate::component::ComponentStorage;
use crate::entity::Entity;

verus! {

/// Immutable iterator over the (entity, component) pairs of one storage, in
/// dense order. An absent storage yields nothing.
pub struct QueryIter<'w, T> {
    storage: Option<&'w ComponentStorage<T>>,
    index: usize,
}

impl<'w, T> QueryIter<'w, T> {
    /// The pairs not yet yielded.
    pub closed spec fn remaining(&self) -> Seq<(Entity, T)> {
        match self.storage {
            Some(s) => Seq::new(
                (s.entity_seq().len() - self.index) as nat,
                |k: int| (s.entity_seq()[k + self.index], s.value_seq()[k + self.index]),
            ),
            None => Seq::empty(),
        }
    }

    /// Well-formedness: the storage is well formed and the position lies within it.
    pub closed spec fn wf(&self) -> bool {
        match self.storage {
            Some(s) => s.wf() && self.index <= s.entity_seq().len(),
            None => true,
        }
    }

    /// An iterator over all pairs of `storage`.
    pub fn new(storage: Option<&'w ComponentStorage<T>>) -> (it: Self)
        requires
            storage matches Some(s) ==> s.wf(),
        ensures
            it.wf(),
            storage matches Some(s) ==> it.remaining() == Seq::new(
                s.entity_seq().len(),
                |k: int| (s.entity_seq()[k], s.value_seq()[k]),
            ),
            storage is None ==> it.remaining() == Seq::<(Entity, T)>::empty(),
    {
        let it = QueryIter { storage, index: 0 };
        proof {
            if let Some(s) = storage {
                assert(it.remaining() =~= Seq::new(
                    s.entity_seq().len(),
                    |k: int| (s.entity_seq()[k], s.value_seq()[k]),
                ));
            }
        }
        it
    }

    /// The next pair, or `None` when all have been yielded.
    pub fn next(&mut self) -> (r: Option<(Entity, &'w T)>)
        requires
            old(self).wf(),
        ensures
            final(self).wf(),
            old(self).remaining().len() == 0 ==> r is None && final(self).remaining() == old(self).remaining(),
            old(self).remaining().len() > 0 ==> {
                &&& r matches Some((e, v)) && (e, *v) == old(self).remaining()[0]
                &&& final(self).remaining() == old(self).remaining().drop_first()
            },
    {
        match self.storage {
            None => None,
            Some(storage) => {
                proof {
                    storage.lemma_dense_enumerates();
                }
                if self.index >= storage.len() {
                    return None;
                }
                let entity = storage.entities()[self.index];
                let value = &storage.values()[self.index];
                self.index = self.index + 1;
                assert(self.remaining() =~= old(self).remaining().drop_first());
                Some((entity, value))
            },
        }
    }

    /// Number of pairs not yet yielded.
    pub fn len(&self) -> (n: usize)
        requires
            self.wf(),
        ensures
            n == self.remaining().len(),
    {
        match self.storage {
            None => 0,
            Some(s) => s.len() - self.index,
        }
    }
}

/// Mutable iterator over the (entity, component) pairs of one storage, in
/// dense order; each component is handed out once, as an exclusive reference.
pub struct QueryMutIter<'w, T> {
    entities: &'w [Entity],
    /// The components not yet handed out (`None` once the storage is absent).
    values: Option<&'w mut [T]>,
    /// How many pairs have been handed out.
    index: usize,
}

impl<'w, T> QueryMutIter<'w, T> {
    /// The pairs not yet yielded, with the components' current values.
    pub closed spec fn remaining(&self) -> Seq<(Entity, T)> {
        match self.values {
            Some(v) => Seq::new(v@.len(), |k: int| (self.entities@[k + self.index], v@[k])),
            None => Seq::empty(),
        }
    }

    /// Well-formedness: the components left line up with the entities left.
    pub closed spec fn wf(&self) -> bool {
        match self.values {
            Some(v) => self.index + v@.len() == self.entities@.len(),
            None => true,
        }
    }

    /// An iterator over all pairs of `storage`.
    pub fn new(storage: Option<&'w mut ComponentStorage<T>>) -> (it: Self)
        requires
            storage matches Some(s) ==> s.wf(),
        ensures
            it.wf(),
            storage matches Some(s) ==> it.remaining() == Seq::new(
                s.entity_seq().len(),
                |k: int| (s.entity_seq()[k], s.value_seq()[k]),
            ),
            storage is None ==> it.remaining() == Seq::<(Entity, T)>::empty(),
    {
        match storage {
            Some(s) => {
                proof {
                    s.lemma_dense_enumerates();
                }
                let ghost es = s.entity_seq();
                let ghost vs = s.value_seq();
                let (entities, values) = s.entities_and_values_mut();
                let it = QueryMutIter { entities, values: Some(values), index: 0 };
                assert(it.remaining() =~= Seq::new(es.len(), |k: int| (es[k], vs[k])));
                it
            },
            None => QueryMutIter { entities: &[], values: None, index: 0 },
        }
    }

    /// The next pair, or `None` when all have been yielded.
    pub fn next(&mut self) -> (r: Option<(Entity, &'w mut T)>)
        requires
            old(self).wf(),
        ensures
            final(self).wf(),
            old(self).remaining().len() == 0 ==> r is None && final(self).remaining() == old(self).remaining(),
            old(self).remaining().len() > 0 ==> {
                &&& r matches Some((e, v)) && (e, *v) == old(self).remaining()[0]
                &&& final(self).remaining() == old(self).remaining().drop_first()
            },
    {
        match self.values.take() {
            None => None,
            Some(vals) => {
                if vals.len() == 0 {
                    self.values = Some(vals);
                    return None;
                }
                let (first, rest) = vals.split_at_mut(1);
                let entity = self.entities[self.index];
                self.index = self.index + 1;
                self.values = Some(rest);
                assert(self.remaining() =~= old(self).remaining().drop_first());
                match first.first_mut() {
                    Some(v) => Some((entity, v)),
                    None => None,
                }
            },
        }
    }

    /// Number of pairs not yet yielded.
    pub fn len(&self) -> (n: usize)
        requires
            self.wf(),
        ensures
            n == self.remaining().len(),
    {
        match &self.values {
            None => 0,
            Some(v) => v.len(),
        }
    }
}

/// A query descriptor — entry point for iterating components of type `T`.
pub struct Query<T> {
    _marker: PhantomData<T>,
}

impl<T> Query<T> {
    /// Immutable iteration over `storage`.
    pub fn iter<'w>(storage: Option<&'w ComponentStorage<T>>) -> (it: QueryIter<'w, T>)
        requires
            storage matches Some(s) ==> s.wf(),
        ensures
            it.wf(),
            storage matches Some(s) ==> it.remaining() == Seq::new(
                s.entity_seq().len(),
                |k: int| (s.entity_seq()[k], s.value_seq()[k]),
            ),
            storage is None ==> it.remaining() == Seq::<(Entity, T)>::empty(),
    {
        QueryIter::new(storage)
    }

    /// Mutable iteration over `storage`.
    pub fn iter_mut<'w>(storage: Option<&'w mut ComponentStorage<T>>) -> (it: QueryMutIter<'w, T>)
        requires
            storage matches Some(s) ==> s.wf(),
        ensures
            it.wf(),
            storage matches Some(s) ==> it.remaining() == Seq::new(
                s.entity_seq().len(),
                |k: int| (s.entity_seq()[k], s.value_seq()[k]),
            ),
            storage is None ==> it.remaining() == Seq::<(Entity, T)>::empty(),
    {
        QueryMutIter::new(storage)
    }
}

} // verus!
