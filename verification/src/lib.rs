//! Core of a taiko beatmap conveyor viewer: beatmap parsing, timing and
//! velocity interpretation, a pausable synchronized clock, instance building
//! for a GPU conveyor renderer, and culling of past objects.
//!
//! Real-valued quantities of the domain (seconds, velocity multipliers,
//! normalized color channels) are carried as exact integers and rationals:
//! times are integer microseconds, fractional values are ratios of integers.
//! The host that owns the GPU, the window and the audio device converts these
//! to its native floating-point formats at the boundary.

pub mod archive;
pub mod beatmap;
pub mod circle;
pub mod clock;
pub mod color;
pub mod config;
pub mod conveyor;
pub mod frac;
pub mod layer;
pub mod lex;
pub mod model;
pub mod parser;
pub mod state;
pub mod time;
pub mod view;
