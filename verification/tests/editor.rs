use supernova::editor::{decimal_string, entity_label, entity_snapshot, EditorEvent, EditorState, CONSOLE_CAPACITY};
use supernova::engine::{command_effect, CommandEffect, CommandKind, EntitySnapshot, LogLevel};
use supernova::world::World;

#[test]
fn decimal_notation() {
    assert_eq!(decimal_string(0), "0");
    assert_eq!(decimal_string(7), "7");
    assert_eq!(decimal_string(10), "10");
    assert_eq!(decimal_string(1234567890), "1234567890");
    assert_eq!(decimal_string(u64::MAX), u64::MAX.to_string());
}

#[test]
fn editor_defaults() {
    let e = EditorState::new();
    assert!(e.show_hierarchy && e.show_inspector && e.show_console && e.show_toolbar);
    assert_eq!(e.selected_entity, None);
    assert_eq!(e.viewport_size, (800, 600));
    assert!(!e.engine_connected);
    assert!(!e.paused);
    assert_eq!(e.new_entity_name(), "Entity_0");
}

#[test]
fn engine_events_update_state() {
    let mut e = EditorState::new();
    let refresh = e.apply_event(EditorEvent::Initialized {
        gpu_name: String::from("GPU"),
        backend: String::from("Vulkan"),
    });
    assert!(!refresh);
    assert!(e.engine_connected);
    assert_eq!(e.console_log.last().unwrap().1, "Engine connected: GPU (Vulkan)");
    assert!(e.apply_event(EditorEvent::Frame { rgba: vec![1, 2, 3, 4], width: 1, height: 1, frame_number: 9 }));
    assert_eq!(e.engine_frame, 9);
    assert_eq!(e.viewport_size, (1, 1));
    assert_eq!(e.viewport_rgba, vec![1, 2, 3, 4]);
    e.apply_event(EditorEvent::EntityList { entities: vec![entity_snapshot(3, true)] });
    assert_eq!(e.entities.len(), 1);
    assert_eq!(e.new_entity_name(), "Entity_1");
    assert!(!e.apply_event(EditorEvent::PhysicsStepDone { bodies_active: 1, collisions: 0 }));
    e.apply_event(EditorEvent::Shutdown);
    assert!(!e.engine_connected);
    assert_eq!(e.console_log.last().unwrap().0, LogLevel::Warn);
    assert_eq!(e.console_log.last().unwrap().1, "Engine disconnected");
}

#[test]
fn console_keeps_last_lines() {
    let mut e = EditorState::new();
    for i in 0..(CONSOLE_CAPACITY + 20) {
        e.apply_event(EditorEvent::ConsoleLog { level: LogLevel::Info, message: format!("line {}", i) });
    }
    assert_eq!(e.console_log.len(), CONSOLE_CAPACITY);
    assert_eq!(e.console_log[0].1, "line 20");
    assert_eq!(e.console_log.last().unwrap().1, format!("line {}", CONSOLE_CAPACITY + 19));
}

#[test]
fn console_commands_are_echoed() {
    let mut e = EditorState::new();
    assert_eq!(e.submit_console_command(String::new()), None);
    assert!(e.console_log.is_empty());
    assert_eq!(e.submit_console_command(String::from("spawn")), Some(String::from("spawn")));
    assert_eq!(e.console_log[0].1, "> spawn");
}

#[test]
fn toolbar_and_selection() {
    let mut e = EditorState::new();
    assert!(e.toggle_pause());
    assert!(e.paused);
    assert!(!e.toggle_pause());
    e.toggle_toolbar();
    assert!(!e.show_toolbar);
    assert!(e.selected_snapshot().is_none());
    e.entities = vec![entity_snapshot(1, false), entity_snapshot(2, true)];
    e.select_entity(2);
    assert!(e.is_selected(2));
    assert!(!e.is_selected(1));
    assert_eq!(e.selected_snapshot().unwrap().index, 2);
    assert!(e.selected_snapshot().unwrap().has_transform);
    e.select_entity(5);
    assert!(e.selected_snapshot().is_none());
}

#[test]
fn labels_and_snapshots() {
    let s = entity_snapshot(12, true);
    assert_eq!(s.name, "Entity_12");
    assert!(!s.has_rigid_body && !s.has_collider);
    assert_eq!(entity_label(&s), "Entity_12");
    let unnamed = EntitySnapshot {
        index: 4,
        name: String::new(),
        has_transform: false,
        has_rigid_body: false,
        has_collider: false,
    };
    assert_eq!(entity_label(&unnamed), "Entity 4");
}

#[test]
fn engine_command_effects() {
    let mut w = World::new();
    let e0 = w.spawn();
    assert!(w.despawn(e0));
    let e1 = w.spawn(); // recycled slot 0, generation 1
    assert_eq!((e1.index(), e1.generation()), (0, 1));
    let e2 = w.spawn();
    assert_eq!(command_effect(false, &CommandKind::Shutdown, &w), CommandEffect::Stop);
    assert_eq!(command_effect(true, &CommandKind::Shutdown, &w), CommandEffect::Stop);
    assert_eq!(command_effect(false, &CommandKind::SpawnEntity, &w), CommandEffect::Spawn);
    assert_eq!(
        command_effect(false, &CommandKind::DespawnEntity { entity_index: 0 }, &w),
        CommandEffect::Despawn(e1)
    );
    assert_eq!(
        command_effect(true, &CommandKind::SetScale { entity_index: 1 }, &w),
        CommandEffect::SetScale(e2)
    );
    assert_eq!(
        command_effect(true, &CommandKind::SetTranslation { entity_index: 5 }, &w),
        CommandEffect::Nothing
    );
    assert_eq!(command_effect(true, &CommandKind::StepFrame, &w), CommandEffect::Step);
    assert_eq!(command_effect(false, &CommandKind::StepFrame, &w), CommandEffect::Nothing);
    assert_eq!(command_effect(false, &CommandKind::SetPaused(true), &w), CommandEffect::SetPaused(true));
    assert_eq!(
        command_effect(false, &CommandKind::ResizeViewport { width: 640, height: 480 }, &w),
        CommandEffect::Nothing
    );
    assert_eq!(command_effect(false, &CommandKind::ConsoleCommand, &w), CommandEffect::Log);
    // Applying the despawn effect frees the recycled slot.
    if let CommandEffect::Despawn(d) = command_effect(false, &CommandKind::DespawnEntity { entity_index: 0 }, &w) {
        assert!(w.despawn(d));
    }
    assert!(!w.is_alive(e1));
    assert_eq!(w.live_at(0), None);
    assert_eq!(w.entity_count(), 1);
    assert_eq!(
        command_effect(false, &CommandKind::DespawnEntity { entity_index: 0 }, &w),
        CommandEffect::Nothing
    );
}
