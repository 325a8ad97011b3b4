use supernova::component::ComponentStorage;
use supernova::entity::Entity;

#[test]
fn storage_insert_get_overwrite() {
    let mut s: ComponentStorage<i32> = ComponentStorage::new();
    let e = Entity::new(0, 0);
    s.insert(e, 42);
    assert_eq!(s.get(e), Some(&42));
    s.insert(e, 100);
    assert_eq!(s.get(e), Some(&100));
    assert_eq!(s.len(), 1);
}

#[test]
fn storage_remove_then_absent() {
    let mut s: ComponentStorage<i32> = ComponentStorage::new();
    let e = Entity::new(0, 0);
    s.insert(e, 42);
    assert!(s.remove(e));
    assert!(!s.contains(e));
    assert_eq!(s.get(e), None);
    assert!(!s.remove(e));
    assert!(s.is_empty());
}

#[test]
fn storage_swap_remove_keeps_others() {
    let mut s: ComponentStorage<u8> = ComponentStorage::new();
    let a = Entity::new(0, 0);
    let b = Entity::new(5, 0);
    let c = Entity::new(2, 3);
    s.insert(a, 1);
    s.insert(b, 2);
    s.insert(c, 3);
    assert_eq!(s.entities(), &[a, b, c]);
    assert_eq!(s.values(), &[1, 2, 3]);
    assert!(s.remove(a));
    // the last element moves into the freed slot
    assert_eq!(s.entities(), &[c, b]);
    assert_eq!(s.values(), &[3, 2]);
    assert_eq!(s.get(b), Some(&2));
    assert_eq!(s.get(c), Some(&3));
}

#[test]
fn storage_lookup_is_by_index() {
    let mut s: ComponentStorage<i32> = ComponentStorage::new();
    s.insert(Entity::new(3, 0), 7);
    // a handle with the same index but another generation reads the same slot
    assert_eq!(s.get(Entity::new(3, 9)), Some(&7));
    assert!(s.contains(Entity::new(3, 1)));
    assert!(!s.contains(Entity::new(4, 0)));
    // overwriting through another generation keeps the recorded handle
    s.insert(Entity::new(3, 2), 8);
    assert_eq!(s.entities(), &[Entity::new(3, 0)]);
    assert_eq!(s.values(), &[8]);
}

#[test]
fn storage_get_mut_and_bulk_mut() {
    let mut s: ComponentStorage<i32> = ComponentStorage::new();
    let a = Entity::new(1, 0);
    let b = Entity::new(2, 0);
    s.insert(a, 10);
    s.insert(b, 20);
    if let Some(v) = s.get_mut(a) {
        *v += 5;
    }
    assert_eq!(s.get(a), Some(&15));
    assert!(s.get_mut(Entity::new(9, 0)).is_none());
    {
        let (ents, vals) = s.entities_and_values_mut();
        assert_eq!(ents, &[a, b]);
        for v in vals.iter_mut() {
            *v *= 2;
        }
    }
    assert_eq!(s.get(a), Some(&30));
    assert_eq!(s.get(b), Some(&40));
    s.remove_entity(b);
    assert_eq!(s.len(), 1);
    s.remove_entity(b);
    assert_eq!(s.len(), 1);
}

#[test]
fn storage_type_id_identifies_component_type() {
    let s: ComponentStorage<i32> = ComponentStorage::new();
    let t: ComponentStorage<u64> = ComponentStorage::new();
    assert_eq!(s.type_id(), std::any::TypeId::of::<i32>());
    assert_ne!(s.type_id(), t.type_id());
}

#[test]
fn storage_len_counts_indices_inserted_and_kept() {
    let mut s: ComponentStorage<u32> = ComponentStorage::new();
    s.insert(Entity::new(1, 0), 10);
    s.insert(Entity::new(2, 0), 20);
    s.insert(Entity::new(1, 3), 11); // same index: no new entry
    assert_eq!(s.len(), 2);
    assert!(s.remove(Entity::new(2, 0)));
    s.insert(Entity::new(5, 0), 50);
    s.remove_entity(Entity::new(7, 0)); // never inserted
    assert_eq!(s.len(), 2);
    assert_eq!(s.entities().len(), s.len());
    assert!(s.contains(Entity::new(1, 0)) && s.contains(Entity::new(5, 0)));
    assert!(!s.contains(Entity::new(2, 0)));
    s.remove(Entity::new(1, 9));
    s.remove(Entity::new(5, 0));
    assert!(s.is_empty());
}
