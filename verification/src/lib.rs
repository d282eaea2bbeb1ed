//! Log-driven game-state tracking and volume actuation engine.
//!
//! The library watches (through its caller) a game's growing log file,
//! classifies each new line into one of three coarse game states, and on a
//! state change computes a smooth ten-step volume ramp together with the
//! play/pause toggles that fire when the volume crosses a silence boundary.
//! The surrounding process — file I/O, the audio endpoint, the media key and
//! the GUI — lives outside this crate and only exchanges plain values with it.

pub mod actuator;
pub mod classifier;
pub mod controller;
pub mod simulator;
pub mod state;
pub mod watcher;
