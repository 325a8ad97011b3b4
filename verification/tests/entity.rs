use supernova::entity::Entity;

#[test]
fn entity_roundtrip() {
    let e = Entity::new(42, 7);
    assert_eq!(e.index(), 42);
    assert_eq!(e.generation(), 7);
}

#[test]
fn entity_eq() {
    let a = Entity::new(1, 0);
    let b = Entity::new(1, 0);
    assert_eq!(a, b);
    let c = Entity::new(1, 1);
    assert_ne!(a, c);
}

#[test]
fn entity_bits_layout() {
    let e = Entity::new(3, 5);
    assert_eq!(format!("{:?}", e), format!("Entity({})", (5u64 << 32) | 3));
    assert_eq!(Entity::new(u32::MAX, 0).index(), u32::MAX);
    assert_eq!(Entity::new(0, u32::MAX).generation(), u32::MAX);
    assert_eq!(Entity::new(0, u32::MAX).index(), 0);
}

#[test]
fn entity_placeholder() {
    let p = Entity::placeholder();
    assert_eq!(p.index(), u32::MAX);
    assert_eq!(p.generation(), u32::MAX);
    assert_eq!(format!("{:?}", p), format!("Entity({})", u64::MAX));
}

#[test]
fn entity_ordering_by_bits() {
    assert!(Entity::new(1, 0) < Entity::new(0, 1));
    assert!(Entity::new(0, 0) < Entity::new(1, 0));
}
