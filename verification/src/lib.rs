//! Simulation core of a small top-down shooter.
//!
//! A ship follows the pointer, its gun fires with a fixed cooldown, bullets
//! fly until they leave the window, enemies appear at a safe distance and
//! home in on the ship, and circles decide who hit whom. The crate holds
//! the rules of that game and what they run on:
//!
//! - [`store`]: the entity store and its query engine,
//! - [`commands`]: the buffer of deferred spawns and despawns,
//! - [`events`]: the event bus with its independent readers,
//! - [`resources`] and [`input`]: the state that belongs to no entity,
//! - [`schedule`]: the scheduler that runs the systems tick by tick,
//! - [`player_ship_plugin`], [`bullet_plugin`], [`enemy_plugin`] and
//!   [`collision_plugin`]: the systems of the game,
//! - [`blocks`] and [`echo`]: two small worlds that show the machinery.
//!
//! The crate neither draws nor reads devices. A host feeds it events,
//! asks it to tick, and draws what the store holds.
//!
//! World coordinates are fixed-point integers: one world unit is
//! [`fixed::UNIT`] sub-units.

pub mod blocks;
pub mod bullet_plugin;
pub mod collision_plugin;
pub mod commands;
pub mod components;
pub mod echo;
pub mod enemy_plugin;
pub mod events;
pub mod fixed;
pub mod input;
pub mod player_ship_plugin;
pub mod resources;
pub mod schedule;
pub mod store;
pub mod window;
