//! Game rules of a small multiplayer survival world: creatures and their
//! units, the action queue the server executes, world chunk generation and
//! the client's input handling.
pub mod strmap;
pub mod text;
pub mod classes;
pub mod tiles;
pub mod ids;
mod random;
pub mod entities;
pub mod names;
pub mod world;
pub mod queue;
pub mod server;
pub mod actions;
pub mod draw;
pub mod client;
pub mod menu;
pub mod laws;
