use supernova::scene::{Children, Scene, SceneManager, Tag};

#[test]
fn scene_collections() {
    let mut s: Scene<u8, u16, u32> = Scene::new(String::from("level"));
    assert_eq!(s.name, "level");
    s.add_entity(3);
    s.add_material(1);
    s.add_light(2);
    s.add_camera(9);
    s.add_camera(10);
    assert_eq!(s.entity(0), Some(3));
    assert_eq!(s.entity(1), None);
    assert_eq!(s.material(0), Some(&1));
    assert_eq!(s.light(0), Some(&2));
    assert_eq!(s.light(5), None);
    assert_eq!(s.camera(1), Some(&10));
    assert_eq!(s.cameras(), &[9, 10]);
}

#[test]
fn scene_default_is_untitled() {
    let s: Scene<u8, u8, u8> = Scene::default();
    assert_eq!(s.name, "Untitled");
    assert!(s.entities.is_empty());
    let c = Children::default();
    assert_eq!(c.parent, 0);
    assert!(c.children.is_empty());
    assert_eq!(Tag::default().tag, "");
}

#[test]
fn scene_manager_load_unload() {
    let mut m: SceneManager<u8, u8, u8> = SceneManager::new();
    assert!(m.current_scene().is_none());
    m.load(Scene::new(String::from("a")));
    assert_eq!(m.current_scene().unwrap().name, "a");
    m.current_scene_mut().unwrap().add_entity(4);
    assert_eq!(m.current_scene().unwrap().entities, vec![4]);
    m.unload();
    assert!(m.current_scene().is_none());
    assert!(m.current_scene_mut().is_none());
}

#[test]
fn scene_manager_names() {
    let mut m: SceneManager<u8, u8, u8> = SceneManager::default();
    assert_eq!(m.get_entity("player"), None);
    m.add_entity(String::from("player"), 1);
    m.add_entity(String::from("enemy"), 2);
    assert_eq!(m.get_entity("player"), Some(1));
    m.add_entity(String::from("player"), 5);
    assert_eq!(m.get_entity("player"), Some(5));
    assert_eq!(m.get_entity("enemy"), Some(2));
}
