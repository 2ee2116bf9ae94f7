//! The simulation state and its per-frame update.
use vstd::prelude::*;
use crate::config::{Config, config_wf};
use crate::geometry::{Point, point_wf, within, is_within, dist2};
use crate::motion::{moved, advance, MAX_SPEED, MAX_FRAME_MICROS};
use crate::spawn::{
    SpawnTimer,
    tick_result,
    corner_position,
    in_border_band,
    position_in_corner,
    random_position_in_corner,
    random_asteroid_speed,
};

verus! {

/// A hazard: where it is and how fast it closes in on the origin.
#[derive(Clone, Copy, Debug, PartialEq, Eq, Structural)]
pub struct Asteroid {
    pub position: Point,
    pub speed: u64,
}

/// Lifecycle of a session: it starts `Playing` and may only move on to
/// `GameOver`, which is final.
#[derive(Clone, Copy, Debug, PartialEq, Eq, Structural)]
pub enum GamePhase {
    Playing,
    GameOver,
}

/// What the platform hands to one frame: the time since the previous frame in
/// microseconds, the pointer in screen coordinates (origin top-left, y down)
/// when it is over the window, and whether the fire button went down.
#[derive(Clone, Copy, Debug)]
pub struct FrameInput {
    pub elapsed: u64,
    pub pointer: Option<Point>,
    pub fire: bool,
}

/// The random values a spawn consumes: two offsets in `[0, 2 * margin)` that
/// place the hazard in the border bands, and its speed.
#[derive(Clone, Copy, Debug, PartialEq, Eq, Structural)]
pub struct SpawnDraw {
    pub offset_x: u64,
    pub offset_y: u64,
    pub speed: u64,
}

/// The simulation state as a mathematical value.
pub struct GameView {
    pub config: Config,
    pub aim: Point,
    pub asteroids: Seq<Asteroid>,
    pub score: u64,
    pub phase: GamePhase,
    pub timer: SpawnTimer,
}

/// Player, hazards, score, spawn timer and phase of one session.
pub struct Game {
    config: Config,
    aim: Point,
    asteroids: Vec<Asteroid>,
    score: u64,
    phase: GamePhase,
    timer: SpawnTimer,
}

impl View for Game {
    type V = GameView;

    closed spec fn view(&self) -> GameView {
        GameView {
            config: self.config,
            aim: self.aim,
            asteroids: self.asteroids@,
            score: self.score,
            phase: self.phase,
            timer: self.timer,
        }
    }
}

pub open spec fn asteroid_wf(a: Asteroid) -> bool {
    point_wf(a.position) && a.speed <= MAX_SPEED
}

/// The state's invariant.
pub open spec fn view_wf(v: GameView) -> bool {
    &&& config_wf(v.config)
    &&& v.timer.wf()
    &&& v.timer.period == v.config.spawn_period
    &&& point_wf(v.aim)
    &&& forall|i: int| 0 <= i < v.asteroids.len() ==> #[trigger] asteroid_wf(v.asteroids[i])
}

/// The pointer lies on the window's surface.
pub open spec fn on_surface(config: Config, p: Point) -> bool {
    0 <= p.x <= config.width && 0 <= p.y <= config.height
}

/// Screen coordinates (origin top-left, y down) to world coordinates (origin
/// at the centre, y up).
pub open spec fn screen_to_world(config: Config, p: Point) -> Point {
    Point { x: (p.x - config.width / 2) as i64, y: (config.height / 2 - p.y) as i64 }
}

/// The world point aimed at, when the pointer is over the surface.
pub open spec fn aim_point(config: Config, pointer: Option<Point>) -> Option<Point> {
    match pointer {
        Some(p) => if on_surface(config, p) {
            Some(screen_to_world(config, p))
        } else {
            None
        },
        None => None,
    }
}

/// Offsets and speed lie in the ranges that a spawn draws from.
pub open spec fn draw_valid(config: Config, d: SpawnDraw) -> bool {
    &&& d.offset_x < 2 * config.margin
    &&& d.offset_y < 2 * config.margin
    &&& config.min_speed <= d.speed < config.max_speed
}

/// The hazard that a spawn with these draws creates.
pub open spec fn spawned(config: Config, d: SpawnDraw) -> Asteroid {
    Asteroid {
        position: corner_position(config, d.offset_x as nat, d.offset_y as nat),
        speed: d.speed,
    }
}

/// A hazard after one motion step.
pub open spec fn moved_asteroid(a: Asteroid, elapsed: u64) -> Asteroid {
    Asteroid { position: moved(a.position, a.speed, elapsed), speed: a.speed }
}

/// Every hazard after one motion step.
pub open spec fn moved_all(s: Seq<Asteroid>, elapsed: u64) -> Seq<Asteroid> {
    Seq::new(s.len(), |i: int| moved_asteroid(s[i], elapsed))
}

/// A shot at `aim` destroys the hazard.
pub open spec fn is_hit(aim: Point, radius: u64) -> spec_fn(Asteroid) -> bool {
    |a: Asteroid| within(a.position, aim, radius as nat)
}

/// A shot at `aim` spares the hazard.
pub open spec fn is_spared(aim: Point, radius: u64) -> spec_fn(Asteroid) -> bool {
    |a: Asteroid| !within(a.position, aim, radius as nat)
}

/// Some hazard has reached the player's radius around the origin.
pub open spec fn reached_player(s: Seq<Asteroid>, radius: u64) -> bool {
    exists|i: int| 0 <= i < s.len() && within(#[trigger] s[i].position, Point { x: 0, y: 0 }, radius as nat)
}

/// `a + b`, held at `u64::MAX`.
pub open spec fn saturating_sum(a: u64, b: nat) -> u64 {
    if a + b > u64::MAX {
        u64::MAX
    } else {
        (a + b) as u64
    }
}

/// The state at the start of a session.
pub open spec fn initial_view(config: Config) -> GameView {
    GameView {
        config,
        aim: Point { x: 0, y: 0 },
        asteroids: Seq::empty(),
        score: 0,
        phase: GamePhase::Playing,
        timer: SpawnTimer { period: config.spawn_period, remaining: config.spawn_period },
    }
}

/// First half of a frame: the spawn timer ticks and, when it fires, the
/// hazard given by `draw` joins.
pub open spec fn spawn_model(v: GameView, elapsed: u64, draw: SpawnDraw) -> GameView {
    let ticked = tick_result(v.timer.period as nat, v.timer.remaining as nat, elapsed as nat);
    GameView {
        asteroids: if ticked.1 {
            v.asteroids.push(spawned(v.config, draw))
        } else {
            v.asteroids
        },
        timer: SpawnTimer { period: v.timer.period, remaining: ticked.0 as u64 },
        ..v
    }
}

/// Second half of a frame: the pointer sets the aim; every hazard moves; a
/// shot removes each hazard within the hazard radius of the aim and scores
/// one per hazard removed; and if a hazard is then within that radius of the
/// origin the game ends, reporting the score.
pub open spec fn finish_model(v: GameView, input: FrameInput) -> (GameView, Option<u64>) {
    let radius = v.config.hazard_radius;
    let after_motion = moved_all(v.asteroids, input.elapsed);
    let aim = aim_point(v.config, input.pointer);
    let shot = input.fire && aim.is_some();
    let after_shot = if shot {
        after_motion.filter(is_spared(aim.unwrap(), radius))
    } else {
        after_motion
    };
    let score = if shot {
        saturating_sum(v.score, after_motion.filter(is_hit(aim.unwrap(), radius)).len())
    } else {
        v.score
    };
    let over = reached_player(after_shot, radius);
    (
        GameView {
            aim: if aim.is_some() {
                aim.unwrap()
            } else {
                v.aim
            },
            asteroids: after_shot,
            score,
            phase: if over {
                GamePhase::GameOver
            } else {
                GamePhase::Playing
            },
            ..v
        },
        if over {
            Some(score)
        } else {
            None
        },
    )
}

/// One frame. Once the game is over nothing changes; otherwise the spawn
/// half and then the finishing half run.
pub open spec fn frame_model(v: GameView, input: FrameInput, draw: SpawnDraw) -> (
    GameView,
    Option<u64>,
) {
    if v.phase == GamePhase::GameOver {
        (v, None)
    } else {
        finish_model(spawn_model(v, input.elapsed, draw), input)
    }
}

/// A shot destroys every hazard standing on the aim point (for a positive
/// radius) and spares every hazard at least the radius away from it.
pub proof fn lemma_hit_test(s: Seq<Asteroid>, aim: Point, radius: u64)
    requires
        radius > 0,
    ensures
        forall|i: int|
            0 <= i < s.len() && s[i].position == aim ==> s.filter(is_hit(aim, radius)).contains(
                #[trigger] s[i],
            ) && !s.filter(is_spared(aim, radius)).contains(s[i]),
        forall|i: int|
            0 <= i < s.len() && dist2(s[i].position, aim) >= radius * radius ==> s.filter(
                is_spared(aim, radius),
            ).contains(#[trigger] s[i]) && !s.filter(is_hit(aim, radius)).contains(s[i]),
{
    s.filter_lemma(is_hit(aim, radius));
    s.filter_lemma(is_spared(aim, radius));
    assert forall|i: int| 0 <= i < s.len() && s[i].position == aim implies s.filter(
        is_hit(aim, radius),
    ).contains(#[trigger] s[i]) && !s.filter(is_spared(aim, radius)).contains(s[i]) by {
        assert(dist2(s[i].position, aim) == 0) by (nonlinear_arith)
            requires
                s[i].position == aim,
        ;
        assert(radius * radius > 0) by (nonlinear_arith)
            requires
                radius > 0,
        ;
        if s.filter(is_spared(aim, radius)).contains(s[i]) {
            let k = choose|k: int|
                0 <= k < s.filter(is_spared(aim, radius)).len() && s.filter(
                    is_spared(aim, radius),
                )[k] == s[i];
            assert(is_spared(aim, radius)(s.filter(is_spared(aim, radius))[k]));
        }
    }
    assert forall|i: int|
        0 <= i < s.len() && dist2(s[i].position, aim) >= radius * radius implies s.filter(
        is_spared(aim, radius),
    ).contains(#[trigger] s[i]) && !s.filter(is_hit(aim, radius)).contains(s[i]) by {
        if s.filter(is_hit(aim, radius)).contains(s[i]) {
            let k = choose|k: int|
                0 <= k < s.filter(is_hit(aim, radius)).len() && s.filter(is_hit(aim, radius))[k]
                    == s[i];
            assert(is_hit(aim, radius)(s.filter(is_hit(aim, radius))[k]));
        }
    }
}

/// A hazard that a frame spawns starts inside the near or far margin band of
/// each axis, never in the interior, with a speed in `[min_speed, max_speed)`.
pub proof fn lemma_spawn_in_border(config: Config, draw: SpawnDraw)
    requires
        config_wf(config),
        draw_valid(config, draw),
    ensures
        in_border_band(
            spawned(config, draw).position.x + config.width / 2,
            config.margin as nat,
            config.width as nat,
        ),
        in_border_band(
            spawned(config, draw).position.y + config.height / 2,
            config.margin as nat,
            config.height as nat,
        ),
        point_wf(spawned(config, draw).position),
        config.min_speed <= spawned(config, draw).speed < config.max_speed,
{
}

/// In a frame that fires with the pointer over the surface, each hazard that
/// (after this frame's motion) stands on the aim point is gone afterwards,
/// and each at least the hazard radius from it is still there.
pub proof fn lemma_shot_in_frame(v: GameView, input: FrameInput, draw: SpawnDraw)
    requires
        v.phase == GamePhase::Playing,
        input.fire,
        aim_point(v.config, input.pointer).is_some(),
        v.config.hazard_radius > 0,
    ensures
        ({
            let aim = aim_point(v.config, input.pointer).unwrap();
            let radius = v.config.hazard_radius;
            let targets = moved_all(spawn_model(v, input.elapsed, draw).asteroids, input.elapsed);
            let after = frame_model(v, input, draw).0.asteroids;
            &&& forall|i: int|
                0 <= i < targets.len() && targets[i].position == aim ==> !after.contains(
                    #[trigger] targets[i],
                )
            &&& forall|i: int|
                0 <= i < targets.len() && dist2(targets[i].position, aim) >= radius * radius
                    ==> after.contains(#[trigger] targets[i])
        }),
{
    let aim = aim_point(v.config, input.pointer).unwrap();
    let targets = moved_all(spawn_model(v, input.elapsed, draw).asteroids, input.elapsed);
    lemma_hit_test(targets, aim, v.config.hazard_radius);
}

/// With no pointer over the surface a frame destroys nothing and leaves the
/// score as it was.
pub proof fn lemma_no_pointer_no_shot(v: GameView, input: FrameInput, draw: SpawnDraw)
    requires
        aim_point(v.config, input.pointer).is_none(),
    ensures
        frame_model(v, input, draw).0.score == v.score,
        v.phase == GamePhase::Playing ==> frame_model(v, input, draw).0.asteroids == moved_all(
            spawn_model(v, input.elapsed, draw).asteroids,
            input.elapsed,
        ),
        v.phase == GamePhase::GameOver ==> frame_model(v, input, draw).0.asteroids
            == v.asteroids,
{
}

/// The score never decreases, and a shot raises it by exactly the number of
/// hazards within the hazard radius of the aim point (unless that would pass
/// the largest `u64`).
pub proof fn lemma_score(v: GameView, input: FrameInput, draw: SpawnDraw)
    ensures
        frame_model(v, input, draw).0.score >= v.score,
        ({
            let aim = aim_point(v.config, input.pointer);
            let targets = moved_all(spawn_model(v, input.elapsed, draw).asteroids, input.elapsed);
            let hits = targets.filter(is_hit(aim.unwrap(), v.config.hazard_radius)).len();
            v.phase == GamePhase::Playing && input.fire && aim.is_some() && v.score + hits
                <= u64::MAX ==> frame_model(v, input, draw).0.score == v.score + hits
        }),
{
}

/// Every hazard moves at a speed in `[min_speed, max_speed)`.
pub open spec fn speeds_in_range(config: Config, s: Seq<Asteroid>) -> bool {
    forall|i: int| 0 <= i < s.len() ==> config.min_speed <= #[trigger] s[i].speed < config.max_speed
}

/// What every frame guarantees, from state `before` to state `after` with
/// `report`: a finished game stays exactly as it was and reports nothing;
/// the score never decreases; a report is given only when the game ends in
/// this frame and carries the score it ends with; and hazard speeds stay in
/// the configured range.
pub open spec fn frame_guarantees(before: GameView, after: GameView, report: Option<u64>) -> bool {
    &&& before.phase == GamePhase::GameOver ==> after == before && report.is_none()
    &&& after.score >= before.score
    &&& report.is_some() ==> before.phase == GamePhase::Playing && after.phase
        == GamePhase::GameOver && report == Some(after.score)
    &&& before.phase == GamePhase::Playing && after.phase == GamePhase::GameOver ==> report.is_some()
    &&& speeds_in_range(before.config, before.asteroids) ==> speeds_in_range(
        after.config,
        after.asteroids,
    )
}

/// Every frame with valid spawn draws meets `frame_guarantees`.
pub proof fn lemma_frame_guarantees(v: GameView, input: FrameInput, draw: SpawnDraw)
    requires
        draw_valid(v.config, draw),
    ensures
        frame_guarantees(v, frame_model(v, input, draw).0, frame_model(v, input, draw).1),
{
    lemma_score(v, input, draw);
    if v.phase == GamePhase::Playing && speeds_in_range(v.config, v.asteroids) {
        let config = v.config;
        let s1 = spawn_model(v, input.elapsed, draw).asteroids;
        assert(speeds_in_range(config, s1));
        let s2 = moved_all(s1, input.elapsed);
        assert(speeds_in_range(config, s2));
        let aim = aim_point(config, input.pointer);
        if input.fire && aim.is_some() {
            let pred = is_spared(aim.unwrap(), config.hazard_radius);
            let s3 = s2.filter(pred);
            assert forall|i: int| 0 <= i < s3.len() implies config.min_speed <= #[trigger] s3[i].speed
                < config.max_speed by {
                assert(s3.contains(s3[i]));
                s2.lemma_filter_contains_rev(pred, s3[i]);
                let k = choose|k: int| 0 <= k < s2.len() && s2[k] == s3[i];
            }
        }
    }
}

/// The state after running the frames in order.
pub open spec fn run_frames(v: GameView, frames: Seq<(FrameInput, SpawnDraw)>) -> GameView
    decreases frames.len(),
{
    if frames.len() == 0 {
        v
    } else {
        let f = frames.last();
        frame_model(run_frames(v, frames.drop_last()), f.0, f.1).0
    }
}

/// Once the game is over no frame changes anything or reports again: no
/// spawn, no motion, no score change, and no way back to playing.
pub proof fn lemma_game_over_is_final(v: GameView, frames: Seq<(FrameInput, SpawnDraw)>)
    requires
        v.phase == GamePhase::GameOver,
    ensures
        run_frames(v, frames) == v,
        forall|input: FrameInput, draw: SpawnDraw| #[trigger] frame_model(v, input, draw) == (v, None::<u64>),
    decreases frames.len(),
{
    if frames.len() > 0 {
        lemma_game_over_is_final(v, frames.drop_last());
    }
}

/// The world point aimed at by `pointer`, or `None` when the pointer is
/// missing or off the surface.
pub fn world_aim(config: &Config, pointer: Option<Point>) -> (r: Option<Point>)
    requires
        config_wf(*config),
    ensures
        r == aim_point(*config, pointer),
        r.is_some() ==> point_wf(r.unwrap()),
{
    match pointer {
        Some(p) => {
            if 0 <= p.x && p.x <= config.width as i64 && 0 <= p.y && p.y <= config.height as i64 {
                Some(
                    Point {
                        x: p.x - (config.width / 2) as i64,
                        y: (config.height / 2) as i64 - p.y,
                    },
                )
            } else {
                None
            }
        },
        None => None,
    }
}

/// Every hazard of `s` after one motion step.
fn move_all(s: &Vec<Asteroid>, elapsed: u64) -> (r: Vec<Asteroid>)
    requires
        forall|i: int| 0 <= i < s@.len() ==> #[trigger] asteroid_wf(s@[i]),
        elapsed <= MAX_FRAME_MICROS,
    ensures
        r@ == moved_all(s@, elapsed),
        forall|i: int| 0 <= i < r@.len() ==> #[trigger] asteroid_wf(r@[i]),
{
    let mut out: Vec<Asteroid> = Vec::new();
    let mut i: usize = 0;
    while i < s.len()
        invariant
            i <= s@.len(),
            out@.len() == i,
            forall|j: int| 0 <= j < i ==> #[trigger] out@[j] == moved_asteroid(s@[j], elapsed),
            forall|j: int| 0 <= j < i ==> #[trigger] asteroid_wf(out@[j]),
            forall|j: int| 0 <= j < s@.len() ==> #[trigger] asteroid_wf(s@[j]),
            elapsed <= MAX_FRAME_MICROS,
        decreases s@.len() - i,
    {
        let a = s[i];
        assert(asteroid_wf(s@[i as int]));
        let p = advance(a.position, a.speed, elapsed);
        out.push(Asteroid { position: p, speed: a.speed });
        i = i + 1;
    }
    assert(out@ =~= moved_all(s@, elapsed));
    out
}

/// The hazards of `s` that a shot at `aim` spares, and how many it destroys.
fn shoot(s: &Vec<Asteroid>, aim: Point, radius: u64) -> (r: (Vec<Asteroid>, usize))
    requires
        point_wf(aim),
        forall|i: int| 0 <= i < s@.len() ==> #[trigger] asteroid_wf(s@[i]),
    ensures
        r.0@ == s@.filter(is_spared(aim, radius)),
        r.1 == s@.filter(is_hit(aim, radius)).len(),
        forall|i: int| 0 <= i < r.0@.len() ==> #[trigger] asteroid_wf(r.0@[i]),
{
    proof {
        reveal(Seq::filter);
    }
    let mut out: Vec<Asteroid> = Vec::new();
    let mut hits: usize = 0;
    let mut i: usize = 0;
    while i < s.len()
        invariant
            i <= s@.len(),
            out@ == s@.take(i as int).filter(is_spared(aim, radius)),
            hits == s@.take(i as int).filter(is_hit(aim, radius)).len(),
            hits <= i,
            forall|j: int| 0 <= j < out@.len() ==> #[trigger] asteroid_wf(out@[j]),
            forall|j: int| 0 <= j < s@.len() ==> #[trigger] asteroid_wf(s@[j]),
            point_wf(aim),
        decreases s@.len() - i,
    {
        let a = s[i];
        assert(asteroid_wf(s@[i as int]));
        proof {
            reveal(Seq::filter);
            let prev = s@.take(i as int);
            let next = s@.take(i + 1);
            assert(next.drop_last() =~= prev);
            assert(next.last() == a);
            assert(next.filter(is_spared(aim, radius)) == if is_spared(aim, radius)(a) {
                prev.filter(is_spared(aim, radius)).push(a)
            } else {
                prev.filter(is_spared(aim, radius))
            });
            assert(next.filter(is_hit(aim, radius)) == if is_hit(aim, radius)(a) {
                prev.filter(is_hit(aim, radius)).push(a)
            } else {
                prev.filter(is_hit(aim, radius))
            });
        }
        if is_within(a.position, aim, radius) {
            hits = hits + 1;
        } else {
            out.push(a);
        }
        i = i + 1;
    }
    assert(s@.take(s@.len() as int) =~= s@);
    (out, hits)
}

/// Whether some hazard of `s` lies within `radius` of the origin.
fn any_reached(s: &Vec<Asteroid>, radius: u64) -> (r: bool)
    requires
        forall|i: int| 0 <= i < s@.len() ==> #[trigger] asteroid_wf(s@[i]),
    ensures
        r == reached_player(s@, radius),
{
    let origin = Point { x: 0, y: 0 };
    let mut i: usize = 0;
    while i < s.len()
        invariant
            i <= s@.len(),
            forall|j: int| 0 <= j < i ==> !within(#[trigger] s@[j].position, origin, radius as nat),
            forall|j: int| 0 <= j < s@.len() ==> #[trigger] asteroid_wf(s@[j]),
            origin == (Point { x: 0, y: 0 }),
        decreases s@.len() - i,
    {
        assert(asteroid_wf(s@[i as int]));
        if is_within(s[i].position, origin, radius) {
            return true;
        }
        i = i + 1;
    }
    false
}

impl Game {
    pub open spec fn wf(&self) -> bool {
        view_wf(self@)
    }

    /// A session in progress with no hazards, a zero score and a full spawn
    /// period ahead.
    pub fn new(config: Config) -> (r: Game)
        requires
            config_wf(config),
        ensures
            r@ == initial_view(config),
            r.wf(),
    {
        Game {
            config,
            aim: Point { x: 0, y: 0 },
            asteroids: Vec::new(),
            score: 0,
            phase: GamePhase::Playing,
            timer: SpawnTimer::new(config.spawn_period),
        }
    }

    pub fn config(&self) -> (r: Config)
        ensures
            r == self@.config,
    {
        self.config
    }

    /// The world point the player faces.
    pub fn aim(&self) -> (r: Point)
        ensures
            r == self@.aim,
    {
        self.aim
    }

    pub fn asteroids(&self) -> (r: &Vec<Asteroid>)
        ensures
            r@ == self@.asteroids,
    {
        &self.asteroids
    }

    pub fn score(&self) -> (r: u64)
        ensures
            r == self@.score,
    {
        self.score
    }

    pub fn phase(&self) -> (r: GamePhase)
        ensures
            r == self@.phase,
    {
        self.phase
    }

    pub fn timer(&self) -> (r: SpawnTimer)
        ensures
            r == self@.timer,
    {
        self.timer
    }

    /// Adds a hazard to the arena.
    pub fn spawn(&mut self, asteroid: Asteroid)
        requires
            old(self).wf(),
            asteroid_wf(asteroid),
        ensures
            final(self)@ == (GameView { asteroids: old(self)@.asteroids.push(asteroid), ..old(self)@ }),
            final(self).wf(),
    {
        self.asteroids.push(asteroid);
    }

    /// Motion, aim, shot and loss check of a frame in progress.
    fn finish_frame(&mut self, input: &FrameInput) -> (report: Option<u64>)
        requires
            old(self).wf(),
            old(self)@.phase == GamePhase::Playing,
            input.elapsed <= MAX_FRAME_MICROS,
        ensures
            (final(self)@, report) == finish_model(old(self)@, *input),
            final(self).wf(),
    {
        assert(self@.asteroids == self.asteroids@);
        let radius = self.config.hazard_radius;
        let aim = world_aim(&self.config, input.pointer);
        let after_motion = move_all(&self.asteroids, input.elapsed);
        if let Some(a) = aim {
            self.aim = a;
        }
        if input.fire && aim.is_some() {
            let (kept, hits) = shoot(&after_motion, aim.unwrap(), radius);
            self.asteroids = kept;
            self.score = if hits as u64 > u64::MAX - self.score {
                u64::MAX
            } else {
                self.score + hits as u64
            };
        } else {
            self.asteroids = after_motion;
        }
        if any_reached(&self.asteroids, radius) {
            self.phase = GamePhase::GameOver;
            Some(self.score)
        } else {
            None
        }
    }

    /// Runs one frame with the spawn draws given, so that the outcome is
    /// fixed by the arguments.
    pub fn update_with(&mut self, input: &FrameInput, draw: &SpawnDraw) -> (report: Option<u64>)
        requires
            old(self).wf(),
            input.elapsed <= MAX_FRAME_MICROS,
            draw_valid(old(self)@.config, *draw),
        ensures
            (final(self)@, report) == frame_model(old(self)@, *input, *draw),
            frame_guarantees(old(self)@, final(self)@, report),
            final(self).wf(),
    {
        proof {
            lemma_frame_guarantees(self@, *input, *draw);
        }
        if self.phase == GamePhase::GameOver {
            return None;
        }
        let fired = self.timer.tick(input.elapsed);
        if fired {
            let position = position_in_corner(&self.config, draw.offset_x, draw.offset_y);
            self.asteroids.push(Asteroid { position, speed: draw.speed });
        }
        proof {
            assert(self@.asteroids =~= spawn_model(old(self)@, input.elapsed, *draw).asteroids);
        }
        self.finish_frame(input)
    }

    /// Runs one frame, drawing the position and speed of a spawned hazard at
    /// random.
    pub fn update(&mut self, input: &FrameInput) -> (report: Option<u64>)
        requires
            old(self).wf(),
            input.elapsed <= MAX_FRAME_MICROS,
        ensures
            exists|draw: SpawnDraw|
                draw_valid(old(self)@.config, draw) && (final(self)@, report) == frame_model(
                    old(self)@,
                    *input,
                    draw,
                ),
            frame_guarantees(old(self)@, final(self)@, report),
            final(self).wf(),
    {
        let ghost mut draw = SpawnDraw {
            offset_x: 0,
            offset_y: 0,
            speed: self.config.min_speed,
        };
        if self.phase == GamePhase::GameOver {
            assert(draw_valid(old(self)@.config, draw));
            proof {
                lemma_frame_guarantees(old(self)@, *input, draw);
            }
            return None;
        }
        let fired = self.timer.tick(input.elapsed);
        if fired {
            let position = random_position_in_corner(&self.config);
            let speed = random_asteroid_speed(&self.config);
            proof {
                let (ox, oy) = choose|ox: nat, oy: nat|
                    ox < 2 * self.config.margin && oy < 2 * self.config.margin && position
                        == corner_position(self.config, ox, oy);
                draw = SpawnDraw { offset_x: ox as u64, offset_y: oy as u64, speed };
            }
            self.asteroids.push(Asteroid { position, speed });
        }
        proof {
            assert(draw_valid(old(self)@.config, draw));
            assert(self@.asteroids =~= spawn_model(old(self)@, input.elapsed, draw).asteroids);
            lemma_frame_guarantees(old(self)@, *input, draw);
        }
        self.finish_frame(input)
    }
}

} // verus!
