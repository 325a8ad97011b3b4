use supernova::scripting::{
    CSharpScript, JavaScriptScript, LuaScript, PythonScript, ScriptError, ScriptInstance, ScriptLanguage,
    ScriptingEngine,
};

#[test]
fn script_handles_increase_from_zero() {
    let mut engine: ScriptingEngine<&'static str> = ScriptingEngine::new();
    assert!(engine.is_enabled());
    assert_eq!(engine.add_script("a", 1), 0);
    assert_eq!(engine.add_script("b", 2), 1);
    assert_eq!(engine.add_script("c", 1), 2);
    assert_eq!(engine.len(), 3);
}

#[test]
fn remove_script_drops_all_of_entity_in_order() {
    let mut engine: ScriptingEngine<&'static str> = ScriptingEngine::new();
    engine.add_script("a", 1);
    engine.add_script("b", 2);
    engine.add_script("c", 1);
    engine.add_script("d", 3);
    engine.remove_script(1);
    assert_eq!(engine.len(), 2);
    assert_eq!(*engine.script_mut(0), "b");
    assert_eq!(*engine.script_mut(1), "d");
    engine.remove_script(42);
    assert_eq!(engine.len(), 2);
}

#[test]
fn remove_script_by_handle_drops_one() {
    let mut engine: ScriptingEngine<&'static str> = ScriptingEngine::new();
    let h0 = engine.add_script("a", 1);
    let h1 = engine.add_script("b", 1);
    engine.add_script("c", 1);
    engine.remove_script_by_handle(h1);
    assert_eq!(engine.len(), 2);
    assert_eq!(*engine.script_mut(0), "a");
    assert_eq!(*engine.script_mut(1), "c");
    engine.remove_script_by_handle(h1);
    assert_eq!(engine.len(), 2);
    engine.remove_script_by_handle(h0);
    assert_eq!(*engine.script_mut(0), "c");
    // handles are never reused
    assert_eq!(engine.add_script("d", 2), 3);
}

#[test]
fn script_mut_and_clear() {
    let mut engine: ScriptingEngine<u32> = ScriptingEngine::default();
    engine.add_script(5, 0);
    *engine.script_mut(0) += 1;
    assert_eq!(*engine.script_mut(0), 6);
    engine.clear_scripts();
    assert_eq!(engine.len(), 0);
    assert_eq!(engine.add_script(1, 0), 1);
}

#[test]
fn enable_disable() {
    let mut engine: ScriptingEngine<u8> = ScriptingEngine::new();
    engine.set_enabled(false);
    assert!(!engine.is_enabled());
    engine.set_enabled(true);
    assert!(engine.is_enabled());
}

#[test]
fn language_registry_replaces() {
    let mut engine: ScriptingEngine<u8> = ScriptingEngine::new();
    assert_eq!(engine.language("lua"), None);
    engine.register_language("lua", ScriptLanguage::Lua);
    engine.register_language("py", ScriptLanguage::Python);
    assert_eq!(engine.language("lua"), Some(ScriptLanguage::Lua));
    engine.register_language("lua", ScriptLanguage::Luau);
    assert_eq!(engine.language("lua"), Some(ScriptLanguage::Luau));
    assert_eq!(engine.language("py"), Some(ScriptLanguage::Python));
    assert_eq!(engine.language("js"), None);
}

#[test]
fn script_sources() {
    let l = LuaScript::new(String::from("print(1)"));
    assert_eq!(l.code, "print(1)");
    assert!(l.active);
    assert_eq!(l.entity, None);
    let l = LuaScript::with_entity(String::from("x"), 4);
    assert_eq!(l.entity, Some(4));
    let c = CSharpScript::with_entity(String::from("Game.dll"), 2);
    assert_eq!(c.assembly_path, "Game.dll");
    assert_eq!(c.entity, Some(2));
    assert!(CSharpScript::new(String::from("a.dll")).active);
    let p = PythonScript::new(String::from("pass"));
    assert_eq!(p.code, "pass");
    assert_eq!(PythonScript::with_entity(String::from("pass"), 9).entity, Some(9));
    let j = JavaScriptScript::new(String::from("1+1"));
    assert_eq!(j.entity, None);
    assert_eq!(JavaScriptScript::with_entity(String::from("1"), 3).entity, Some(3));
}

#[test]
fn script_instance_accessors() {
    let i = ScriptInstance::new("code", 7, 11);
    assert_eq!(i.entity(), 7);
    assert_eq!(i.handle(), 11);
}

#[test]
fn script_error_messages() {
    assert_eq!(ScriptError::InvalidScript(String::from("x")).message(), "Invalid script: x");
    assert_eq!(ScriptError::ExecutionError(String::from("x")).message(), "Execution error: x");
    assert_eq!(ScriptError::RuntimeError(String::from("x")).message(), "Runtime error: x");
    assert_eq!(ScriptError::CompileError(String::from("x")).message(), "Compile error: x");
    assert_eq!(ScriptError::NotInitialized.message(), "Scripting engine not initialized");
    assert_eq!(ScriptError::UnknownLanguage(String::from("cobol")).message(), "Unknown scripting language: cobol");
}

#[test]
fn handles_not_exhausted_on_fresh_engine() {
    let mut engine: ScriptingEngine<u8> = ScriptingEngine::new();
    assert!(!engine.handles_exhausted());
    engine.add_script(1, 1);
    assert!(!engine.handles_exhausted());
}
