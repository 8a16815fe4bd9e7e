//! Core of a grid-based snake game.
//!
//! The library has three parts:
//! - [`direction`]: the four headings and the reversal rule;
//! - [`game`]: the discrete-time state machine that advances the snake,
//!   detects collisions, and manages growth and food placement;
//! - [`viewport`] and [`render`]: the pure mapping from logical grid cells
//!   to pixel rectangles on a resizable drawing surface, and the list of
//!   paint commands for one frame.
//!
//! The shell that owns the event loop (keyboard, timer, resize) drives the
//! state machine through `change_direction` and `update` and hands the
//! produced paint commands to the drawing surface. All triggers are assumed
//! to be serialized by the host's single-threaded event queue.

pub mod direction;
pub mod game;
pub mod render;
pub mod viewport;
