//! Supernova — the verified core of a small game engine: an entity-component
//! store with generational handles, double-buffered events, and the
//! bookkeeping of the engine's subsystems (assets, scenes, scripts, plugins,
//! networking, rendering descriptors).

pub mod assets;
pub mod color;
pub mod component;
pub mod editor;
pub mod engine;
pub mod entity;
pub mod event;
pub mod input;
pub mod network;
pub mod numeral;
pub mod physics;
pub mod plugin;
pub mod query;
pub mod renderer;
pub mod scene;
pub mod schedule;
pub mod scripting;
pub mod system;
pub mod world;
