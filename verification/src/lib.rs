//! Simulation core of a small arcade game: the player dodges creeps that
//! cross the play area.
//!
//! The core keeps the state of the game apart from the engine that shows
//! it. It is advanced once per physics tick; what the engine has to do in
//! turn (write a pose to a node, release a node) comes back as a list of
//! requests. Nodes are known by handle only.
//!
//! All quantities are integers. Lengths are in thousandths of a pixel,
//! velocities in such units per second, time in microseconds and angles in
//! millionths of a radian.
//!
//! * [`components`], [`resources`], [`events`], [`mob`]: the data.
//! * [`motion`]: integration of velocities, and the walls of the play area.
//! * [`steering`]: held keys and the velocity they call for.
//! * [`outside`]: what is taken for granted of `bevy_ecs`, `bevy_app` and
//!   `rand`.
//! * [`world`]: entities, queries, resources and the event queue, kept in
//!   `bevy_ecs` and `bevy_app` containers.
//! * [`systems`]: the game systems.
//! * [`schedule`]: the state of the game and the order of a tick.
//! * [`cast`]: what the game keeps true of its entities.
//! * [`spawn`]: how a creep comes into the game.
//! * [`requests`]: what the core asks of the host.
//! * [`main_scene`]: the orchestrator behind the host's callbacks.

pub mod cast;
pub mod components;
pub mod events;
pub mod main_scene;
pub mod mob;
pub mod motion;
pub mod outside;
pub mod requests;
pub mod resources;
pub mod schedule;
pub mod spawn;
pub mod steering;
pub mod systems;
pub mod world;
