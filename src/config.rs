//! Fixed parameters of a session.
use vstd::prelude::*;
use crate::geometry::COORD_LIMIT;
use crate::motion::MAX_SPEED;

verus! {

/// Arena size, spawn margin, spawn period (microseconds), speed range (units
/// per second, upper end excluded) and the hazard radius shared by hit tests
/// and loss detection.
#[derive(Clone, Copy, Debug, PartialEq, Eq, Structural)]
pub struct Config {
    pub width: u64,
    pub height: u64,
    pub margin: u64,
    pub spawn_period: u64,
    pub min_speed: u64,
    pub max_speed: u64,
    pub hazard_radius: u64,
}

/// A usable configuration: a non-empty margin that fits in the arena, an
/// arena and radius within the coordinate range, and a non-empty speed range.
pub open spec fn config_wf(c: Config) -> bool {
    &&& 0 < c.margin
    &&& c.margin <= c.width
    &&& c.margin <= c.height
    &&& c.width <= COORD_LIMIT
    &&& c.height <= COORD_LIMIT
    &&& c.min_speed < c.max_speed
    &&& c.max_speed <= MAX_SPEED
    &&& c.hazard_radius <= COORD_LIMIT
}

impl Config {
    /// Whether this configuration is usable.
    pub fn is_valid(&self) -> (r: bool)
        ensures
            r == config_wf(*self),
    {
        0 < self.margin && self.margin <= self.width && self.margin <= self.height
            && self.width <= COORD_LIMIT as u64 && self.height <= COORD_LIMIT as u64
            && self.min_speed < self.max_speed && self.max_speed <= MAX_SPEED
            && self.hazard_radius <= COORD_LIMIT as u64
    }
}

} // verus!
