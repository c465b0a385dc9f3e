//! Lighting effects for a keyboard whose keys are lit one by one.
//!
//! An effect reacts to key events and to timer ticks and answers each with
//! a list of colour [`Command`]s. The crate holds three effects: a
//! [`Heatmap`] of how often each key was pressed, the game [`Snake`] played
//! on the letter block, and a [`FlashHandler`] that lights the whole board
//! while a key is down.

pub mod color;
pub mod flash;
pub mod gradient;
pub mod heatmap;
pub mod grid;
pub mod keys;
pub mod random;
pub mod snake;
pub mod u_input;

pub use color::{Channel, Color, Command, CommandView, KeyColor};
pub use flash::FlashHandler;
pub use gradient::interpolate;
pub use grid::{Cell, Direction};
pub use heatmap::{Heatmap, HeatmapHandler, HeatmapHandlerView};
pub use keys::{Key, KeyEvent, MediaKey, StandardKey};
pub use random::{RandomSource, ThreadSource};
pub use snake::{Snake, SnakeView, State};
