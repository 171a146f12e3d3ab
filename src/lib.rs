//! A tile-based swinging game's simulation core: fixed-point world and cell coordinates,
//! ray marching, the tether's deploy / retract animation and swing forces, the player's
//! per-tick kinematics and collisions, and the camera that places all of it on a grid of
//! characters.

pub mod pos;
pub mod ray;
pub mod stage;
pub mod chain;
pub mod animation;
pub mod render;
pub mod input;
pub mod physics;
pub mod player;
pub mod timer;
pub mod logger;
pub mod ui;
