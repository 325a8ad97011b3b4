use supernova::entity::Entity;
use supernova::world::World;

#[test]
fn spawn_despawn() {
    let mut world = World::new();
    let e = world.spawn();
    assert!(world.is_alive(e));
    assert!(world.despawn(e));
    assert!(!world.is_alive(e));
}

#[test]
fn entity_reuse() {
    let mut world = World::new();
    let e1 = world.spawn();
    world.despawn(e1);
    let e2 = world.spawn();
    assert_ne!(e1, e2);
    assert_eq!(e1.index(), e2.index());
    assert_eq!(e2.generation(), e1.generation() + 1);
}

#[test]
fn spawn_fresh_indices_in_order() {
    let mut world = World::new();
    let a = world.spawn();
    let b = world.spawn();
    let c = world.spawn();
    assert_eq!((a.index(), b.index(), c.index()), (0, 1, 2));
    assert_eq!((a.generation(), b.generation(), c.generation()), (0, 0, 0));
    assert_eq!(world.entity_count(), 3);
    assert_eq!(world.entities(), vec![a, b, c]);
}

#[test]
fn despawn_stale_handle_is_refused() {
    let mut world = World::new();
    let e = world.spawn();
    assert!(world.despawn(e));
    assert!(!world.despawn(e));
    let e2 = world.spawn();
    assert!(!world.is_alive(e));
    assert!(world.is_alive(e2));
    assert!(!world.despawn(e));
    assert!(world.is_alive(e2));
}

#[test]
fn despawn_unknown_handle() {
    let mut world = World::new();
    assert!(!world.despawn(Entity::new(10, 0)));
    assert!(!world.is_alive(Entity::new(0, 0)));
}

#[test]
fn recycling_is_last_in_first_out() {
    let mut world = World::new();
    let a = world.spawn();
    let b = world.spawn();
    world.despawn(a);
    world.despawn(b);
    let c = world.spawn();
    let d = world.spawn();
    assert_eq!(c, Entity::new(1, 1));
    assert_eq!(d, Entity::new(0, 1));
}

#[test]
fn entity_count_and_listing_skip_dead() {
    let mut world = World::new();
    let a = world.spawn();
    let b = world.spawn();
    let c = world.spawn();
    world.despawn(b);
    assert_eq!(world.entity_count(), 2);
    assert_eq!(world.entities(), vec![a, c]);
}

#[test]
fn clear_entities_frees_every_slot() {
    let mut world = World::new();
    let a = world.spawn();
    let b = world.spawn();
    world.despawn(a);
    world.clear_entities();
    assert_eq!(world.entity_count(), 0);
    assert!(!world.is_alive(b));
    // slots come back from the end of the ascending free list
    let x = world.spawn();
    assert_eq!(x, Entity::new(1, 1));
    let y = world.spawn();
    assert_eq!(y, Entity::new(0, 2));
}

#[test]
fn can_spawn_on_fresh_world() {
    let mut world = World::new();
    assert!(world.can_spawn());
    let e = world.spawn();
    assert!(world.can_spawn());
    assert!(world.is_alive(e));
}
