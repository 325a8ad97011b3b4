use supernova::component::ComponentStorage;
use supernova::entity::Entity;
use supernova::query::{Query, QueryIter};

#[test]
fn query_yields_pairs_in_dense_order() {
    let mut s: ComponentStorage<i32> = ComponentStorage::new();
    let a = Entity::new(4, 0);
    let b = Entity::new(1, 2);
    s.insert(a, 40);
    s.insert(b, 10);
    let mut it = Query::iter(Some(&s));
    assert_eq!(it.len(), 2);
    assert_eq!(it.next(), Some((a, &40)));
    assert_eq!(it.len(), 1);
    assert_eq!(it.next(), Some((b, &10)));
    assert_eq!(it.next(), None);
    assert_eq!(it.next(), None);
    assert_eq!(it.len(), 0);
}

#[test]
fn query_without_storage_is_empty() {
    let mut it: QueryIter<'_, i32> = QueryIter::new(None);
    assert_eq!(it.len(), 0);
    assert_eq!(it.next(), None);
}

#[test]
fn query_mut_writes_reach_storage() {
    let mut s: ComponentStorage<i32> = ComponentStorage::new();
    let a = Entity::new(0, 0);
    let b = Entity::new(7, 1);
    s.insert(a, 1);
    s.insert(b, 2);
    {
        let mut it = Query::iter_mut(Some(&mut s));
        assert_eq!(it.len(), 2);
        while let Some((e, v)) = it.next() {
            if e == b {
                *v += 100;
            } else {
                *v = -1;
            }
        }
        assert_eq!(it.len(), 0);
        assert!(it.next().is_none());
    }
    assert_eq!(s.get(a), Some(&-1));
    assert_eq!(s.get(b), Some(&102));
}

#[test]
fn query_mut_without_storage_is_empty() {
    let mut it = supernova::query::QueryMutIter::<'_, u8>::new(None);
    assert_eq!(it.len(), 0);
    assert!(it.next().is_none());
}
