//! Spawn scheduling and the sampling of spawn positions and speeds.
use vstd::prelude::*;
use rand::Rng;
use crate::config::{Config, config_wf};
use crate::geometry::{Point, point_wf};

verus! {

/// A countdown that fires once its period has elapsed and then starts over.
#[derive(Clone, Copy, Debug, PartialEq, Eq, Structural)]
pub struct SpawnTimer {
    pub period: u64,
    pub remaining: u64,
}

/// Remaining time and whether the timer fired, after a tick of `elapsed`.
/// A zero tick changes nothing; a tick that reaches zero fires and restarts
/// the full period, whatever the overshoot.
pub open spec fn tick_result(period: nat, remaining: nat, elapsed: nat) -> (nat, bool) {
    if elapsed == 0 {
        (remaining, false)
    } else if elapsed >= remaining {
        (period, true)
    } else {
        ((remaining - elapsed) as nat, false)
    }
}

/// Total of a sequence of time steps.
pub open spec fn seq_sum(s: Seq<u64>) -> nat
    decreases s.len(),
{
    if s.len() == 0 {
        0
    } else {
        seq_sum(s.drop_last()) + s.last() as nat
    }
}

/// Remaining time and number of firings after ticking through `ticks`.
pub open spec fn run_timer(period: nat, remaining: nat, ticks: Seq<u64>) -> (nat, nat)
    decreases ticks.len(),
{
    if ticks.len() == 0 {
        (remaining, 0)
    } else {
        let before = run_timer(period, remaining, ticks.drop_last());
        let after = tick_result(period, before.0, ticks.last() as nat);
        (after.0, if after.1 { before.1 + 1 } else { before.1 })
    }
}

impl SpawnTimer {
    pub open spec fn wf(&self) -> bool {
        self.remaining <= self.period
    }

    /// A timer with its full period ahead.
    pub fn new(period: u64) -> (r: SpawnTimer)
        ensures
            r.period == period,
            r.remaining == period,
            r.wf(),
    {
        SpawnTimer { period, remaining: period }
    }

    /// Advances the countdown by `elapsed` microseconds; returns whether it fired.
    pub fn tick(&mut self, elapsed: u64) -> (fired: bool)
        ensures
            final(self).period == old(self).period,
            (final(self).remaining as nat, fired) == tick_result(
                old(self).period as nat,
                old(self).remaining as nat,
                elapsed as nat,
            ),
            old(self).wf() ==> final(self).wf(),
    {
        if elapsed == 0 {
            false
        } else if elapsed >= self.remaining {
            self.remaining = self.period;
            true
        } else {
            self.remaining = self.remaining - elapsed;
            false
        }
    }
}

proof fn lemma_no_spawn_before_period(period: u64, ticks: Seq<u64>)
    requires
        seq_sum(ticks) < period,
    ensures
        run_timer(period as nat, period as nat, ticks) == ((period - seq_sum(ticks)) as nat, 0nat),
    decreases ticks.len(),
{
    if ticks.len() > 0 {
        lemma_no_spawn_before_period(period, ticks.drop_last());
    }
}

/// Starting from a full period, a run of ticks whose total first reaches the
/// period on its last tick fires exactly once, on that last tick, and leaves
/// the full period ahead (the overshoot is dropped).
pub proof fn lemma_spawn_periodicity(period: u64, ticks: Seq<u64>)
    requires
        ticks.len() > 0,
        seq_sum(ticks.drop_last()) < period <= seq_sum(ticks),
    ensures
        run_timer(period as nat, period as nat, ticks.drop_last()).1 == 0,
        tick_result(
            period as nat,
            run_timer(period as nat, period as nat, ticks.drop_last()).0,
            ticks.last() as nat,
        ).1,
        run_timer(period as nat, period as nat, ticks) == (period as nat, 1nat),
{
    lemma_no_spawn_before_period(period, ticks.drop_last());
}

/// Position along one axis of a border band: offsets below `margin` fall in
/// `[0, margin)`, the others in `[dimension - margin, dimension)`.
pub open spec fn band_coordinate(offset: nat, margin: nat, dimension: nat) -> int {
    if offset < margin {
        offset as int
    } else {
        offset - margin + dimension - margin
    }
}

/// A coordinate lies in the near or the far margin band of an axis.
pub open spec fn in_border_band(c: int, margin: nat, dimension: nat) -> bool {
    (0 <= c <= margin) || (dimension - margin <= c <= dimension)
}

/// Spawn position, centred on the arena, for the two offsets drawn from
/// `[0, 2 * margin)`.
pub open spec fn corner_position(config: Config, offset_x: nat, offset_y: nat) -> Point {
    Point {
        x: (band_coordinate(offset_x, config.margin as nat, config.width as nat) - config.width
            / 2) as i64,
        y: (band_coordinate(offset_y, config.margin as nat, config.height as nat) - config.height
            / 2) as i64,
    }
}

/// The spawn position for two offsets drawn from `[0, 2 * margin)`: each
/// offset picks the near or far margin band of its axis and a place in it;
/// the result is shifted so that the arena's centre is the origin.
pub fn position_in_corner(config: &Config, offset_x: u64, offset_y: u64) -> (r: Point)
    requires
        config_wf(*config),
        offset_x < 2 * config.margin,
        offset_y < 2 * config.margin,
    ensures
        r == corner_position(*config, offset_x as nat, offset_y as nat),
        point_wf(r),
        in_border_band(r.x + config.width / 2, config.margin as nat, config.width as nat),
        in_border_band(r.y + config.height / 2, config.margin as nat, config.height as nat),
{
    let m = config.margin;
    let bx: u64 = if offset_x < m { offset_x } else { offset_x - m + config.width - m };
    let by: u64 = if offset_y < m { offset_y } else { offset_y - m + config.height - m };
    Point { x: bx as i64 - (config.width / 2) as i64, y: by as i64 - (config.height / 2) as i64 }
}

/// Relies on rand::thread_rng and rand::Rng::gen_range on `u64`: a value drawn
/// from `[low, high)`; gen_range panics on an empty range.
#[verifier::external_body]
fn draw_in_range(low: u64, high: u64) -> (r: u64)
    requires
        low < high,
    ensures
        low <= r < high,
{
    rand::thread_rng().gen_range(low..high)
}

/// A random spawn position in the arena's border margin, centred on the arena.
pub fn random_position_in_corner(config: &Config) -> (r: Point)
    requires
        config_wf(*config),
    ensures
        exists|ox: nat, oy: nat|
            ox < 2 * config.margin && oy < 2 * config.margin && r == corner_position(
                *config,
                ox,
                oy,
            ),
        point_wf(r),
        in_border_band(r.x + config.width / 2, config.margin as nat, config.width as nat),
        in_border_band(r.y + config.height / 2, config.margin as nat, config.height as nat),
{
    let ox = draw_in_range(0, 2 * config.margin);
    let oy = draw_in_range(0, 2 * config.margin);
    let r = position_in_corner(config, ox, oy);
    assert(ox < 2 * config.margin && oy < 2 * config.margin && r == corner_position(
        *config,
        ox as nat,
        oy as nat,
    ));
    r
}

/// A random hazard speed in `[min_speed, max_speed)`.
pub fn random_asteroid_speed(config: &Config) -> (r: u64)
    requires
        config_wf(*config),
    ensures
        config.min_speed <= r < config.max_speed,
{
    draw_in_range(config.min_speed, config.max_speed)
}

} // verus!
