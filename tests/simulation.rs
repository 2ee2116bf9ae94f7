use asteroids::{
    advance, isqrt, position_in_corner, random_asteroid_speed, random_position_in_corner,
    world_aim, Asteroid, Config, FrameInput, Game, GamePhase, Point, SpawnDraw, SpawnTimer,
};

const SECOND: u64 = 1_000_000;

fn arena() -> Config {
    Config {
        width: 800,
        height: 600,
        margin: 50,
        spawn_period: SECOND,
        min_speed: 50,
        max_speed: 100,
        hazard_radius: 50,
    }
}

fn quiet_arena() -> Config {
    Config { spawn_period: u64::MAX, ..arena() }
}

fn idle(elapsed: u64) -> FrameInput {
    FrameInput { elapsed, pointer: None, fire: false }
}

fn fire_at_screen(elapsed: u64, x: i64, y: i64) -> FrameInput {
    FrameInput { elapsed, pointer: Some(Point { x, y }), fire: true }
}

fn dist2(p: Point) -> i128 {
    p.x as i128 * p.x as i128 + p.y as i128 * p.y as i128
}

fn in_band(c: i64, margin: i64, dimension: i64) -> bool {
    (0..=margin).contains(&c) || (dimension - margin..=dimension).contains(&c)
}

#[test]
fn timer_fires_when_total_reaches_period() {
    let mut t = SpawnTimer::new(SECOND);
    assert!(!t.tick(300_000));
    assert!(!t.tick(300_000));
    assert!(!t.tick(300_000));
    assert_eq!(t.remaining, 100_000);
    assert!(t.tick(300_000));
    assert_eq!(t.remaining, SECOND);
}

#[test]
fn timer_zero_tick_is_noop() {
    let mut t = SpawnTimer::new(SECOND);
    assert!(!t.tick(0));
    assert_eq!(t.remaining, SECOND);
    let mut z = SpawnTimer::new(0);
    assert!(!z.tick(0));
    assert!(z.tick(1));
}

#[test]
fn timer_large_jump_fires_once() {
    let mut t = SpawnTimer::new(SECOND);
    assert!(t.tick(5 * SECOND));
    assert_eq!(t.remaining, SECOND);
    assert!(!t.tick(1));
}

#[test]
fn corner_offsets_map_to_bands() {
    let c = arena();
    assert_eq!(position_in_corner(&c, 0, 0), Point { x: -400, y: -300 });
    assert_eq!(position_in_corner(&c, 49, 99), Point { x: -351, y: 299 });
    assert_eq!(position_in_corner(&c, 50, 50), Point { x: 350, y: 250 });
}

#[test]
fn random_positions_lie_in_border_bands() {
    let c = arena();
    for _ in 0..500 {
        let p = random_position_in_corner(&c);
        assert!(in_band(p.x + 400, 50, 800), "{:?}", p);
        assert!(in_band(p.y + 300, 50, 600), "{:?}", p);
        assert!(!(p.x.abs() < 350 && p.y.abs() < 250));
    }
}

#[test]
fn random_speeds_lie_in_range() {
    let c = arena();
    let mut seen_other_than_min = false;
    for _ in 0..500 {
        let s = random_asteroid_speed(&c);
        assert!((50..100).contains(&s));
        if s != c.min_speed {
            seen_other_than_min = true;
        }
    }
    assert!(seen_other_than_min);
}

#[test]
fn isqrt_rounds_down() {
    assert_eq!(isqrt(0), 0);
    assert_eq!(isqrt(15), 3);
    assert_eq!(isqrt(16), 4);
    assert_eq!(isqrt(1 << 80), 1 << 40);
    assert_eq!(isqrt((1 << 80) - 1), (1 << 40) - 1);
}

#[test]
fn advance_moves_toward_origin() {
    assert_eq!(advance(Point { x: 0, y: 60 }, 100, 100_000), Point { x: 0, y: 50 });
    assert_eq!(advance(Point { x: 3, y: 4 }, 5, SECOND), Point { x: 0, y: 0 });
    assert_eq!(advance(Point { x: 3, y: 4 }, 1, SECOND), Point { x: 2, y: 3 });
    assert_eq!(advance(Point { x: -30, y: 40 }, 10, SECOND), Point { x: -24, y: 32 });
    assert_eq!(advance(Point { x: 0, y: 0 }, 10, SECOND), Point { x: 0, y: 0 });
}

#[test]
fn advance_short_step_never_passes_origin() {
    // Exact step 1.3 units, exact distance about 1.414: the rounded step is held
    // at the rounded distance, so the point ends closer, not mirrored.
    assert_eq!(advance(Point { x: 1, y: 1 }, 13, 100_000), Point { x: 0, y: 0 });
    assert_eq!(advance(Point { x: 0, y: 2 }, 15, 100_000), Point { x: 0, y: 0 });
    let p = advance(Point { x: 7, y: 7 }, 95, 100_000);
    assert!(dist2(p) < 98);
}

#[test]
fn advance_with_zero_time_stays() {
    assert_eq!(advance(Point { x: 7, y: -9 }, 100, 0), Point { x: 7, y: -9 });
}

#[test]
fn advance_overshoot_passes_origin() {
    assert_eq!(advance(Point { x: 0, y: 10 }, 30, SECOND), Point { x: 0, y: -20 });
}

#[test]
fn pointer_maps_to_world() {
    let c = arena();
    assert_eq!(world_aim(&c, Some(Point { x: 400, y: 300 })), Some(Point { x: 0, y: 0 }));
    assert_eq!(world_aim(&c, Some(Point { x: 0, y: 0 })), Some(Point { x: -400, y: 300 }));
    assert_eq!(world_aim(&c, Some(Point { x: 800, y: 600 })), Some(Point { x: 400, y: -300 }));
    assert_eq!(world_aim(&c, Some(Point { x: 801, y: 0 })), None);
    assert_eq!(world_aim(&c, None), None);
}

#[test]
fn config_validity() {
    assert!(arena().is_valid());
    assert!(!Config { margin: 0, ..arena() }.is_valid());
    assert!(!Config { min_speed: 100, ..arena() }.is_valid());
}

#[test]
fn aim_follows_pointer() {
    let mut g = Game::new(quiet_arena());
    g.update(&FrameInput { elapsed: 0, pointer: Some(Point { x: 500, y: 100 }), fire: false });
    assert_eq!(g.aim(), Point { x: 100, y: 200 });
    g.update(&idle(0));
    assert_eq!(g.aim(), Point { x: 100, y: 200 });
}

#[test]
fn shot_at_asteroid_destroys_it() {
    let mut g = Game::new(quiet_arena());
    g.spawn(Asteroid { position: Point { x: 200, y: 100 }, speed: 50 });
    let report = g.update(&fire_at_screen(0, 600, 200));
    assert_eq!(report, None);
    assert!(g.asteroids().is_empty());
    assert_eq!(g.score(), 1);
}

#[test]
fn shot_at_radius_distance_misses() {
    let mut g = Game::new(quiet_arena());
    g.spawn(Asteroid { position: Point { x: 250, y: 100 }, speed: 50 });
    g.update(&fire_at_screen(0, 600, 200));
    assert_eq!(g.asteroids().len(), 1);
    assert_eq!(g.score(), 0);
}

#[test]
fn shot_counts_every_hit() {
    let mut g = Game::new(quiet_arena());
    g.spawn(Asteroid { position: Point { x: 200, y: 100 }, speed: 50 });
    g.spawn(Asteroid { position: Point { x: 230, y: 100 }, speed: 50 });
    g.spawn(Asteroid { position: Point { x: -300, y: 100 }, speed: 50 });
    g.update(&fire_at_screen(0, 610, 200));
    assert_eq!(g.score(), 2);
    assert_eq!(g.asteroids().len(), 1);
    assert_eq!(g.asteroids()[0].position, Point { x: -300, y: 100 });
}

#[test]
fn shot_without_pointer_does_nothing() {
    let mut g = Game::new(quiet_arena());
    g.spawn(Asteroid { position: Point { x: 200, y: 100 }, speed: 50 });
    g.update(&FrameInput { elapsed: 0, pointer: None, fire: true });
    g.update(&FrameInput { elapsed: 0, pointer: Some(Point { x: 900, y: 200 }), fire: true });
    assert_eq!(g.asteroids().len(), 1);
    assert_eq!(g.score(), 0);
}

#[test]
fn pointer_without_fire_does_not_shoot() {
    let mut g = Game::new(quiet_arena());
    g.spawn(Asteroid { position: Point { x: 200, y: 100 }, speed: 50 });
    g.update(&FrameInput { elapsed: 0, pointer: Some(Point { x: 600, y: 200 }), fire: false });
    assert_eq!(g.asteroids().len(), 1);
    assert_eq!(g.score(), 0);
}

#[test]
fn update_with_spawns_the_given_draw() {
    let mut g = Game::new(arena());
    let draw = SpawnDraw { offset_x: 10, offset_y: 60, speed: 70 };
    assert_eq!(g.update_with(&idle(SECOND / 2), &draw), None);
    assert!(g.asteroids().is_empty());
    assert_eq!(g.update_with(&idle(SECOND / 2), &draw), None);
    assert_eq!(g.asteroids().len(), 1);
    let a = g.asteroids()[0];
    assert_eq!(a.speed, 70);
    // Spawned at (-390, 260), then moved 35 units toward the origin.
    assert_eq!(a.position, advance(Point { x: -390, y: 260 }, 70, SECOND / 2));
    assert_eq!(g.timer().remaining, SECOND);
}

#[test]
fn end_to_end_spawn_and_approach() {
    let mut g = Game::new(arena());
    assert_eq!(g.update(&idle(SECOND)), None);
    assert_eq!(g.asteroids().len(), 1);
    let first = g.asteroids()[0];
    assert!((50..100).contains(&first.speed));
    let mut last = dist2(first.position);
    for tick in 1..=20 {
        assert_eq!(g.update(&idle(SECOND / 10)), None);
        let expected = if tick < 10 { 1 } else if tick < 20 { 2 } else { 3 };
        assert_eq!(g.asteroids().len(), expected, "tick {}", tick);
        let d = dist2(g.asteroids()[0].position);
        assert!(d < last, "tick {}", tick);
        last = d;
    }
    assert_eq!(g.phase(), GamePhase::Playing);
}

#[test]
fn end_to_end_loss_freezes_score() {
    let mut g = Game::new(quiet_arena());
    g.spawn(Asteroid { position: Point { x: 0, y: 60 }, speed: 100 });
    g.spawn(Asteroid { position: Point { x: 300, y: 0 }, speed: 100 });
    assert_eq!(g.update(&fire_at_screen(50_000, 700, 300)), None);
    assert_eq!(g.score(), 1);
    assert_eq!(g.asteroids()[0].position, Point { x: 0, y: 55 });
    assert_eq!(g.update(&idle(50_000)), None);
    assert_eq!(g.asteroids()[0].position, Point { x: 0, y: 50 });
    assert_eq!(g.phase(), GamePhase::Playing);
    assert_eq!(g.update(&idle(50_000)), Some(1));
    assert_eq!(g.phase(), GamePhase::GameOver);
    let frozen = g.asteroids().clone();
    for _ in 0..5 {
        assert_eq!(g.update(&fire_at_screen(SECOND, 400, 255)), None);
    }
    assert_eq!(g.phase(), GamePhase::GameOver);
    assert_eq!(g.score(), 1);
    assert_eq!(g.asteroids(), &frozen);
}

#[test]
fn game_over_stops_spawning() {
    let mut g = Game::new(arena());
    g.spawn(Asteroid { position: Point { x: 0, y: 10 }, speed: 50 });
    assert_eq!(g.update(&idle(0)), Some(0));
    let timer = g.timer();
    g.update(&idle(3 * SECOND));
    assert_eq!(g.asteroids().len(), 1);
    assert_eq!(g.timer(), timer);
}
