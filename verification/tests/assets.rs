use supernova::assets::{AssetError, AssetHandle, AssetManager, FromBytes};

struct Text(String);

impl FromBytes for Text {
    fn from_bytes(data: &[u8]) -> Result<Self, AssetError> {
        match String::from_utf8(data.to_vec()) {
            Ok(s) => Ok(Text(s)),
            Err(e) => Err(AssetError::ParseError(e.to_string())),
        }
    }
}

#[test]
fn handles_start_at_one_and_increase() {
    let mut m = AssetManager::new();
    assert!(m.is_empty());
    let a = m.load_from_bytes(vec![1, 2, 3], "a");
    let b = m.load_from_bytes(vec![4], "b");
    assert_eq!(a.id(), 1);
    assert_eq!(b.id(), 2);
    assert_eq!(a.version(), 0);
    assert_eq!(m.len(), 2);
    assert_eq!(m.get_raw(a), Some(vec![1, 2, 3]));
    assert_eq!(m.path(b), Some("b"));
    assert!(m.is_loaded(a));
    assert!(m.modified(a).is_some());
}

#[test]
fn unload_forgets_asset_and_its_path() {
    let mut m = AssetManager::new();
    let h = m.insert_file(String::from("tex/wall.png"), vec![9, 9]);
    assert_eq!(m.handle_for_path("tex/wall.png"), Some(h));
    assert!(m.unload(h));
    assert!(!m.is_loaded(h));
    assert_eq!(m.get_raw(h), None);
    assert_eq!(m.path(h), None);
    assert_eq!(m.handle_for_path("tex/wall.png"), None);
    assert!(!m.unload(h));
    assert!(m.modified(h).is_none());
    // ids are not reused
    let again = m.insert_file(String::from("tex/wall.png"), vec![1]);
    assert_eq!(again.id(), 2);
}

#[test]
fn insert_file_reindexes_same_path() {
    let mut m = AssetManager::new();
    let h1 = m.insert_file(String::from("a.txt"), b"one".to_vec());
    let h2 = m.insert_file(String::from("a.txt"), b"two".to_vec());
    let other = m.insert_file(String::from("b.txt"), b"x".to_vec());
    assert_ne!(h1, h2);
    assert_eq!(m.handle_for_path("a.txt"), Some(h2));
    assert_eq!(m.handle_for_path("b.txt"), Some(other));
    assert_eq!(m.handle_for_path("c.txt"), None);
    // the older asset stays loaded under its own handle
    assert_eq!(m.get_raw(h1), Some(b"one".to_vec()));
    assert_eq!(m.len(), 3);
}

#[test]
fn get_deserializes_or_reports_missing() {
    let mut m = AssetManager::new();
    let h = m.load_from_bytes(b"hello".to_vec(), "greeting");
    match m.get::<Text>(h) {
        Ok(t) => assert_eq!(t.0, "hello"),
        Err(_) => panic!("expected text"),
    }
    match m.get::<Text>(AssetHandle::new(99)) {
        Err(AssetError::NotFound(msg)) => assert_eq!(msg, "Handle not found"),
        _ => panic!("expected NotFound"),
    }
    let bad = m.load_from_bytes(vec![0xff, 0xfe], "bad");
    assert!(matches!(m.get::<Text>(bad), Err(AssetError::ParseError(_))));
}

#[test]
fn reload_replaces_data_of_loaded_only() {
    let mut m = AssetManager::new();
    let h = m.insert_file(String::from("s.wgsl"), vec![1]);
    let t: i128 = 1_700_000_000_000_000_000;
    assert!(m.reload(h, vec![2, 3], t));
    assert_eq!(m.get_raw(h), Some(vec![2, 3]));
    assert_eq!(m.modified(h), Some(t));
    assert_eq!(m.path(h), Some("s.wgsl"));
    assert!(!m.reload(AssetHandle::new(50), vec![0], t));
    assert!(!m.is_loaded(AssetHandle::new(50)));
}

#[test]
fn handles_lists_each_loaded_once() {
    let mut m = AssetManager::new();
    let a = m.load_from_bytes(vec![], "a");
    let b = m.load_from_bytes(vec![], "b");
    let c = m.load_from_bytes(vec![], "c");
    m.unload(b);
    let mut hs = m.handles();
    hs.sort();
    assert_eq!(hs, vec![a, c]);
    assert_eq!(m.asset_type(a), None);
}

#[test]
fn asset_handle_default_and_errors() {
    let h = AssetHandle::default();
    assert_eq!(h.id(), 0);
    assert_eq!(h, AssetHandle::new(0));
    assert_eq!(AssetError::IOError(String::from("x")).message(), "IO error: x");
    assert_eq!(AssetError::ParseError(String::from("x")).message(), "Parse error: x");
    assert_eq!(AssetError::NotFound(String::from("x")).message(), "Asset not found: x");
    assert_eq!(AssetError::Locked.message(), "Asset is locked");
    assert_eq!(AssetError::Other(String::from("x")).message(), "Error: x");
}

#[test]
fn ids_not_exhausted_on_fresh_manager() {
    let mut m = AssetManager::new();
    assert!(!m.ids_exhausted());
    m.load_from_bytes(vec![], "x");
    assert!(!m.ids_exhausted());
}

#[test]
fn len_counts_loads_and_unloads() {
    let mut m = AssetManager::default();
    let a = m.load_from_bytes(vec![1], "a");
    let b = m.load_from_bytes(vec![2], "b");
    assert_eq!(m.len(), 2);
    assert!(m.unload(a));
    assert_eq!(m.len(), 1);
    assert!(!m.unload(a));
    assert_eq!(m.len(), 1);
    assert!(m.unload(b));
    assert!(m.is_empty());
    assert_eq!(m.asset_type(b), None);
}

#[test]
fn run_of_changes_keeps_issued_and_read_back() {
    let mut m = AssetManager::new();
    let t: i128 = 5;
    let a = m.load_from_bytes(vec![1, 1], "a");
    let b = m.insert_file(String::from("b.png"), vec![2, 2]);
    assert!(m.unload(a));
    let c = m.load_from_bytes(vec![3], "c");
    assert!(m.reload(c, vec![4], t));
    assert!(!m.reload(a, vec![9], t));
    // Loaded: issued and not unloaded since.
    assert!(!m.is_loaded(a));
    assert!(m.is_loaded(b));
    assert!(m.is_loaded(c));
    assert!(!m.is_loaded(AssetHandle::new(4)));
    assert_eq!((a.id(), b.id(), c.id()), (1, 2, 3));
    // Read back: b was never reloaded, c was.
    assert_eq!(m.get_raw(b), Some(vec![2, 2]));
    assert_eq!(m.get_raw(c), Some(vec![4]));
    assert_eq!(m.get_raw(a), None);
    assert_eq!(m.asset_type(a), None);
}

#[test]
fn changed_on_disk_compares_with_recorded_time() {
    let mut m = AssetManager::new();
    let h = m.insert_file(String::from("t.txt"), vec![1]);
    // A new asset records the machine clock, well after the epoch.
    assert!(m.modified(h).unwrap() > 1_000_000_000_000_000_000);
    let t0: i128 = 1_000_000_000_000;
    assert!(m.reload(h, vec![2], t0));
    assert_eq!(m.modified(h), Some(t0));
    assert!(m.changed_on_disk(h, t0 + 1));
    assert!(!m.changed_on_disk(h, t0));
    assert!(!m.changed_on_disk(h, t0 - 1));
    assert!(m.reload(h, vec![3], -7));
    assert!(m.changed_on_disk(h, 0));
    assert!(!m.changed_on_disk(h, -8));
    assert!(m.unload(h));
    assert!(!m.changed_on_disk(h, t0 + 1));
}
