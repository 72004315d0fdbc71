//! Frame scheduling and state-ownership core of a small game engine runtime:
//! the fixed-timestep clock, the letterboxed integer upscale of a logical
//! resolution, the input tracker with rebindable keys, the length-prefixed
//! message framing and the websocket connection table.

pub mod viewport;
pub mod wire;
pub mod input;
pub mod scheduler;
pub mod state;
pub mod ws;
pub mod ui;
pub mod cardinal;
