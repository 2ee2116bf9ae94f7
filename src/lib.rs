//! Simulation core of a small arcade game: a stationary player at the centre
//! of a rectangular arena fires at hazards ("asteroids") that spawn on the
//! arena's border and drift toward the centre.
//!
//! Lengths are integers in a unit chosen by the caller, speeds are units per
//! second, and time is counted in microseconds.
use vstd::prelude::*;

pub mod geometry;
pub mod motion;
pub mod config;
pub mod spawn;
pub mod game;

verus! {

pub use geometry::{Point, COORD_LIMIT, isqrt, is_within};
pub use motion::{advance, MAX_SPEED, MAX_FRAME_MICROS, MICROS_PER_SECOND};
pub use config::Config;
pub use spawn::{SpawnTimer, position_in_corner, random_position_in_corner, random_asteroid_speed};
pub use game::{Asteroid, FrameInput, Game, GamePhase, SpawnDraw, world_aim};

} // verus!
