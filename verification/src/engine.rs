//! Engine-level plain data: console log levels, entity snapshots, the
//! demo's name tag component, and what the engine does on each command it
//! receives from the editor.

use vstd::prelude::*;

use crate::entity::Entity;
use crate::entity::law_entity_roundtrip;
use crate::world::{arena_after_despawn, arena_is_alive, arena_live_at, ArenaView, World};

verus! {

/// Lightweight entity snapshot for the hierarchy panel.
#[derive(Debug, Clone)]
pub struct EntitySnapshot {
    pub index: u32,
    pub name: String,
    pub has_transform: bool,
    pub has_rigid_body: bool,
    pub has_collider: bool,
}

/// Log level for console messages.
#[derive(Debug, Clone, Copy, PartialEq, Eq, Structural)]
pub enum LogLevel {
    Trace,
    Debug,
    Info,
    Warn,
    Error,
}

/// GameObject tag component
#[derive(Debug, Clone, Copy)]
pub struct GameObject {
    pub name: &'static str,
}

/// A command from the editor, without its floating-point values.
#[derive(Debug, Clone, Copy, PartialEq, Eq, Structural)]
pub enum CommandKind {
    SpawnEntity,
    DespawnEntity { entity_index: u32 },
    SetTranslation { entity_index: u32 },
    SetScale { entity_index: u32 },
    SetRotation { entity_index: u32 },
    SetPaused(bool),
    StepFrame,
    SetGravity,
    Shutdown,
    ConsoleCommand,
    ResizeViewport { width: u32, height: u32 },
}

/// What the engine does on a command.
#[derive(Debug, Clone, Copy, PartialEq, Eq, Structural)]
pub enum CommandEffect {
    /// Stop the engine and leave the commands still queued unprocessed.
    Stop,
    /// Spawn an entity with an identity transform.
    Spawn,
    /// Despawn this entity.
    Despawn(Entity),
    /// Set the translation of this entity's transform, if it has one.
    SetTranslation(Entity),
    /// Set the scale of this entity's transform, if it has one.
    SetScale(Entity),
    /// Set the rotation of this entity's transform, if it has one.
    SetRotation(Entity),
    /// Pause or resume the simulation.
    SetPaused(bool),
    /// Run one update of 1/60 s.
    Step,
    /// Set the gravity of the physics engine.
    SetGravity,
    /// Log the console command.
    Log,
    /// Nothing (a step while running; a resize, which the GPU context handles;
    /// a command naming an index that holds no live entity).
    Nothing,
}

/// The effect of a command on an engine that is `paused` or not, whose
/// entity arena is `arena`. Commands name entities by index; they address the
/// live entity at that index, whatever its generation, and do nothing when
/// that slot holds no live entity.
pub open spec fn effect_of(paused: bool, cmd: CommandKind, arena: ArenaView) -> CommandEffect {
    match cmd {
        CommandKind::SpawnEntity => CommandEffect::Spawn,
        CommandKind::DespawnEntity { entity_index } => match arena_live_at(arena, entity_index) {
            Some(e) => CommandEffect::Despawn(e),
            None => CommandEffect::Nothing,
        },
        CommandKind::SetTranslation { entity_index } => match arena_live_at(arena, entity_index) {
            Some(e) => CommandEffect::SetTranslation(e),
            None => CommandEffect::Nothing,
        },
        CommandKind::SetScale { entity_index } => match arena_live_at(arena, entity_index) {
            Some(e) => CommandEffect::SetScale(e),
            None => CommandEffect::Nothing,
        },
        CommandKind::SetRotation { entity_index } => match arena_live_at(arena, entity_index) {
            Some(e) => CommandEffect::SetRotation(e),
            None => CommandEffect::Nothing,
        },
        CommandKind::SetPaused(p) => CommandEffect::SetPaused(p),
        CommandKind::StepFrame => if paused {
            CommandEffect::Step
        } else {
            CommandEffect::Nothing
        },
        CommandKind::SetGravity => CommandEffect::SetGravity,
        CommandKind::Shutdown => CommandEffect::Stop,
        CommandKind::ConsoleCommand => CommandEffect::Log,
        CommandKind::ResizeViewport { .. } => CommandEffect::Nothing,
    }
}

/// The effect of `cmd` on an engine that is `paused` or not, whose entity
/// arena is `world`. An entity named by index is the live one at that index.
pub fn command_effect(paused: bool, cmd: &CommandKind, world: &World) -> (e: CommandEffect)
    ensures
        e == effect_of(paused, *cmd, world@),
        e matches CommandEffect::Despawn(d) ==> arena_is_alive(world@, d),
        e matches CommandEffect::SetTranslation(d) ==> arena_is_alive(world@, d),
        e matches CommandEffect::SetScale(d) ==> arena_is_alive(world@, d),
        e matches CommandEffect::SetRotation(d) ==> arena_is_alive(world@, d),
{
    match *cmd {
        CommandKind::SpawnEntity => CommandEffect::Spawn,
        CommandKind::DespawnEntity { entity_index } => match world.live_at(entity_index) {
            Some(d) => CommandEffect::Despawn(d),
            None => CommandEffect::Nothing,
        },
        CommandKind::SetTranslation { entity_index } => match world.live_at(entity_index) {
            Some(d) => CommandEffect::SetTranslation(d),
            None => CommandEffect::Nothing,
        },
        CommandKind::SetScale { entity_index } => match world.live_at(entity_index) {
            Some(d) => CommandEffect::SetScale(d),
            None => CommandEffect::Nothing,
        },
        CommandKind::SetRotation { entity_index } => match world.live_at(entity_index) {
            Some(d) => CommandEffect::SetRotation(d),
            None => CommandEffect::Nothing,
        },
        CommandKind::SetPaused(p) => CommandEffect::SetPaused(p),
        CommandKind::StepFrame => if paused {
            CommandEffect::Step
        } else {
            CommandEffect::Nothing
        },
        CommandKind::SetGravity => CommandEffect::SetGravity,
        CommandKind::Shutdown => CommandEffect::Stop,
        CommandKind::ConsoleCommand => CommandEffect::Log,
        CommandKind::ResizeViewport { .. } => CommandEffect::Nothing,
    }
}

/// Law: a despawn command despawns whatever entity lives at the index it
/// names, recycled or not: afterwards no live entity is at that index.
pub proof fn law_despawn_command_frees_index(paused: bool, entity_index: u32, arena: ArenaView)
    ensures
        effect_of(paused, CommandKind::DespawnEntity { entity_index }, arena) matches CommandEffect::Despawn(e)
            ==> arena_live_at(arena_after_despawn(arena, e), entity_index) is None,
        arena_live_at(arena, entity_index) is Some <==> effect_of(
            paused,
            CommandKind::DespawnEntity { entity_index },
            arena,
        ) is Despawn,
{
    if let Some(e) = arena_live_at(arena, entity_index) {
        law_entity_roundtrip(e, e, entity_index, arena.metas[entity_index as int].generation);
    }
}

/// Law: a command that names an entity by index acts on the entity that is
/// alive at that index, whatever its generation: despawn, translation,
/// scale and rotation each address that live handle, with the matching
/// kind; when the slot is missing or free, the command does nothing.
pub proof fn law_entity_commands_address_live_slot(paused: bool, i: u32, arena: ArenaView)
    ensures
        ((i as int) < arena.metas.len() && arena.metas[i as int].alive) ==> ({
            let d = Entity::spec_new(i, arena.metas[i as int].generation);
            &&& arena_is_alive(arena, d)
            &&& d.idx() == i
            &&& effect_of(paused, CommandKind::DespawnEntity { entity_index: i }, arena) == CommandEffect::Despawn(d)
            &&& effect_of(paused, CommandKind::SetTranslation { entity_index: i }, arena)
                == CommandEffect::SetTranslation(d)
            &&& effect_of(paused, CommandKind::SetScale { entity_index: i }, arena) == CommandEffect::SetScale(d)
            &&& effect_of(paused, CommandKind::SetRotation { entity_index: i }, arena)
                == CommandEffect::SetRotation(d)
        }),
        !((i as int) < arena.metas.len() && arena.metas[i as int].alive) ==> ({
            &&& effect_of(paused, CommandKind::DespawnEntity { entity_index: i }, arena) == CommandEffect::Nothing
            &&& effect_of(paused, CommandKind::SetTranslation { entity_index: i }, arena) == CommandEffect::Nothing
            &&& effect_of(paused, CommandKind::SetScale { entity_index: i }, arena) == CommandEffect::Nothing
            &&& effect_of(paused, CommandKind::SetRotation { entity_index: i }, arena) == CommandEffect::Nothing
        }),
{
    if (i as int) < arena.metas.len() {
        let d = Entity::spec_new(i, arena.metas[i as int].generation);
        law_entity_roundtrip(d, d, i, arena.metas[i as int].generation);
    }
}

/// Law: the commands that name no entity. Shutdown stops the engine,
/// spawning spawns, a pause change sets the pause state to the one sent, a
/// step request steps exactly when the engine is paused, gravity is set,
/// a console command is logged, and a viewport resize does nothing here.
pub proof fn law_plain_commands(paused: bool, p: bool, width: u32, height: u32, arena: ArenaView)
    ensures
        effect_of(paused, CommandKind::Shutdown, arena) == CommandEffect::Stop,
        effect_of(paused, CommandKind::SpawnEntity, arena) == CommandEffect::Spawn,
        effect_of(paused, CommandKind::SetPaused(p), arena) == CommandEffect::SetPaused(p),
        (effect_of(paused, CommandKind::StepFrame, arena) == CommandEffect::Step) == paused,
        !paused ==> effect_of(paused, CommandKind::StepFrame, arena) == CommandEffect::Nothing,
        effect_of(paused, CommandKind::SetGravity, arena) == CommandEffect::SetGravity,
        effect_of(paused, CommandKind::ConsoleCommand, arena) == CommandEffect::Log,
        effect_of(paused, CommandKind::ResizeViewport { width, height }, arena) == CommandEffect::Nothing,
{
}

} // verus!
