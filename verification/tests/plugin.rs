use supernova::plugin::{DummyPlugin, PluginError, PluginManager};

#[test]
fn load_plugin_names_by_file_stem() {
    let mut m = PluginManager::new();
    assert_eq!(m.load_plugin("plugins/physics.so"), Ok(String::from("physics")));
    assert_eq!(m.load_plugin("audio.dll"), Ok(String::from("audio")));
    assert_eq!(m.plugin_names(), vec![String::from("physics"), String::from("audio")]);
    assert_eq!(m.loaded_order(), &[String::from("physics"), String::from("audio")]);
    let p = m.get_plugin("physics").unwrap();
    assert_eq!(p.name(), "physics");
    assert_eq!(p.version(), "1.0.0");
    assert!(p.dependencies().is_empty());
    assert!(!p.hot_reloadable());
}

#[test]
fn load_plugin_errors() {
    let mut m = PluginManager::new();
    assert_eq!(m.load_plugin("a/x.so"), Ok(String::from("x")));
    assert_eq!(m.load_plugin("b/x.dll"), Err(PluginError::AlreadyLoaded));
    assert_eq!(m.load_plugin(""), Err(PluginError::InvalidPath));
    assert_eq!(m.load_plugin(".."), Err(PluginError::InvalidPath));
    assert_eq!(m.plugin_names(), vec![String::from("x")]);
}

#[test]
fn unload_plugin_keeps_order_of_rest() {
    let mut m = PluginManager::default();
    m.load_plugin("a.so").unwrap();
    m.load_plugin("b.so").unwrap();
    m.load_plugin("c.so").unwrap();
    assert_eq!(m.unload_plugin("b"), Ok(()));
    assert_eq!(m.unload_plugin("b"), Err(PluginError::NotFound));
    assert_eq!(m.plugin_names(), vec![String::from("a"), String::from("c")]);
    assert!(m.get_plugin("b").is_none());
    assert!(m.get_plugin_mut("c").is_some());
    assert!(m.get_plugin_mut("zz").is_none());
}

#[test]
fn initialization_order_follows_load_order() {
    let mut m = PluginManager::new();
    m.load_plugin("z.so").unwrap();
    m.load_plugin("a.so").unwrap();
    m.load_plugin("m.so").unwrap();
    assert_eq!(m.initialization_order(), vec![String::from("z"), String::from("a"), String::from("m")]);
    m.clear();
    assert!(m.initialization_order().is_empty());
    assert!(m.plugin_names().is_empty());
}

#[test]
fn plugin_paths_and_dummy() {
    let mut m = PluginManager::new();
    m.add_plugin_path(String::from("./plugins"));
    let d = DummyPlugin::new("demo");
    assert_eq!(d.name(), "demo");
}

#[test]
fn plugin_error_messages() {
    assert_eq!(PluginError::NotFound.message(), "Plugin not found");
    assert_eq!(PluginError::AlreadyLoaded.message(), "Plugin already loaded");
    assert_eq!(PluginError::InvalidPath.message(), "Invalid plugin path");
    assert_eq!(PluginError::LoadFailed.message(), "Failed to load plugin");
    assert_eq!(PluginError::Incompatible.message(), "Plugin incompatible");
    assert_eq!(PluginError::Other(String::from("boom")).message(), "boom");
}

#[test]
fn load_then_unload_restores_names() {
    let mut m = PluginManager::new();
    m.load_plugin("a.so").unwrap();
    let before = m.plugin_names();
    let name = m.load_plugin("libs/fresh.so").unwrap();
    assert_eq!(m.unload_plugin(&name), Ok(()));
    assert_eq!(m.plugin_names(), before);
}
