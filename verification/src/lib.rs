//! Core logic of a small side-scrolling arcade game: a mouse-steered player
//! dodges falling and homing obstacles while a difficulty multiplier ramps up,
//! score accrues, and a finite energy budget gates a temporary invulnerability.
//!
//! The game engine (rendering, physics callbacks, audio, windowing) lives
//! outside this crate; this library holds the rules it drives: the weighted
//! spawn table, the structure-import format, collision and damage resolution,
//! the screen-flow state machine, and the per-frame kinematics.
//!
//! All fractional quantities (speed, score, energy, coordinates) are stored as
//! integers in millionths of their display unit, and every duration is a whole
//! number of milliseconds, so that each update rule is exact.

pub mod collisions;
pub mod falling;
pub mod highscore;
pub mod homing;
pub mod import;
pub mod map_layout;
pub mod plane;
pub mod player;
pub mod rng;
pub mod speed;
pub mod state;
pub mod text;
pub mod units;
