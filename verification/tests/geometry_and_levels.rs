// Geometry queries, level validation and the tilt clamp.

use labyrinth::config::Config;
use labyrinth::game::{Game, MAX_ANGLE};
use labyrinth::geom::{distance, Point, Rect, Size, Velocity};
use labyrinth::level::{Level, LevelError};

fn unit_rect(x: i64, y: i64, w: i64, h: i64) -> Rect {
    Rect { pos: Point { x, y }, size: Size { w, h } }
}

fn tiny_level() -> Level {
    Level::new(
        String::from("tiny"),
        Size { w: 100_000, h: 100_000 },
        Point { x: 50_000, y: 50_000 },
        unit_rect(70_000, 70_000, 10_000, 10_000),
        vec![],
        vec![],
    )
    .expect("well-formed test level")
}

/// Containment is half-open: left and top boundaries are inside,
/// right and bottom boundaries are outside.
#[test]
fn containment_is_half_open() {
    let r = unit_rect(10_000, 20_000, 5_000, 6_000);
    assert!(r.contains(Point { x: 10_000, y: 20_000 })); // top-left corner
    assert!(r.contains(Point { x: 14_999, y: 25_999 })); // inside by one
    assert!(!r.contains(Point { x: 15_000, y: 22_000 })); // right boundary
    assert!(!r.contains(Point { x: 12_000, y: 26_000 })); // bottom boundary
    assert!(r.contains(Point { x: 10_000, y: 22_000 })); // left boundary
    assert!(r.contains(Point { x: 12_000, y: 20_000 })); // top boundary
    assert!(!r.contains(Point { x: 9_999, y: 22_000 }));
}

/// Euclidean distance in milli-units, rounded down.
#[test]
fn distance_exact_values() {
    let a = Point { x: 0, y: 0 };
    assert_eq!(distance(a, Point { x: 3_000, y: 4_000 }), 5_000);
    assert_eq!(distance(a, Point { x: -3_000, y: 4_000 }), 5_000);
    assert_eq!(distance(a, a), 0);
    assert_eq!(distance(a, Point { x: 1_000, y: 1_000 }), 1_414);
}

/// The tilt accumulates and clamps: no sequence of deltas can push it
/// past the configured maximum on either side.
#[test]
fn tilt_clamps_on_both_sides() {
    let mut g = Game::new(tiny_level());
    for _ in 0..50 {
        g.rotate_x(40_000);
    }
    assert_eq!(g.angle_x, MAX_ANGLE);
    g.rotate_x(i64::MAX);
    assert_eq!(g.angle_x, MAX_ANGLE);
    for _ in 0..50 {
        g.rotate_x(-40_000);
    }
    assert_eq!(g.angle_x, -MAX_ANGLE);
    g.rotate_x(i64::MIN);
    assert_eq!(g.angle_x, -MAX_ANGLE);
    g.rotate_x(MAX_ANGLE);
    assert_eq!(g.angle_x, 0);
    // The other axis is untouched throughout.
    assert_eq!(g.angle_y, 0);
    g.rotate_y(-7);
    assert_eq!(g.angle_y, -7);
}

/// A fresh game sits at the level's start, at rest, with no clock.
#[test]
fn new_game_initial_state() {
    let g = Game::new(tiny_level());
    assert_eq!(g.ball_pos, Point { x: 50_000, y: 50_000 });
    assert_eq!(g.ball_v, Velocity { x: 0, y: 0 });
    assert_eq!(g.angle_x, 0);
    assert_eq!(g.angle_y, 0);
    assert_eq!(g.prev_update, None);
}

/// A well-formed description builds a level carrying exactly the
/// given values.
#[test]
fn level_new_keeps_fields() {
    let walls = vec![unit_rect(30_000, 0, 10_000, 60_000)];
    let holes = vec![Point { x: 80_000, y: 20_000 }];
    let l = Level::new(
        String::from("keeps"),
        Size { w: 100_000, h: 90_000 },
        Point { x: 10_000, y: 10_000 },
        unit_rect(70_000, 70_000, 10_000, 10_000),
        walls.clone(),
        holes.clone(),
    )
    .expect("well-formed level");
    assert_eq!(l.name, "keeps");
    assert_eq!(l.size, Size { w: 100_000, h: 90_000 });
    assert_eq!(l.start, Point { x: 10_000, y: 10_000 });
    assert_eq!(l.end, unit_rect(70_000, 70_000, 10_000, 10_000));
    assert_eq!(l.walls, walls);
    assert_eq!(l.holes, holes);
}

/// Each malformed field is rejected with its own error, in
/// validation order.
#[test]
fn level_new_rejects_malformed_fields() {
    let size = Size { w: 100_000, h: 90_000 };
    let start = Point { x: 10_000, y: 10_000 };
    let end = unit_rect(70_000, 70_000, 10_000, 10_000);

    let bad_size = Level::new(String::from("l"), Size { w: 0, h: 90_000 }, start, end, vec![], vec![]);
    assert_eq!(bad_size.err(), Some(LevelError::BadBoardSize));

    let bad_start = Level::new(
        String::from("l"),
        size,
        Point { x: 2_000_000_000_000, y: 0 },
        end,
        vec![],
        vec![],
    );
    assert_eq!(bad_start.err(), Some(LevelError::BadStart));

    let bad_goal = Level::new(
        String::from("l"),
        size,
        start,
        unit_rect(70_000, 70_000, 0, 10_000),
        vec![],
        vec![],
    );
    assert_eq!(bad_goal.err(), Some(LevelError::BadGoal));

    let bad_wall = Level::new(
        String::from("l"),
        size,
        start,
        end,
        vec![unit_rect(0, 0, 10_000, -5)],
        vec![],
    );
    assert_eq!(bad_wall.err(), Some(LevelError::BadWall));

    let bad_hole = Level::new(
        String::from("l"),
        size,
        start,
        end,
        vec![],
        vec![Point { x: 0, y: -2_000_000_000_000 }],
    );
    assert_eq!(bad_hole.err(), Some(LevelError::BadHole));

    // A malformed size wins over later malformed fields.
    let two_faults = Level::new(
        String::from("l"),
        Size { w: -1, h: 90_000 },
        start,
        end,
        vec![unit_rect(0, 0, 10_000, -5)],
        vec![],
    );
    assert_eq!(two_faults.err(), Some(LevelError::BadBoardSize));
}

/// The renderer settings default to 4x MSAA, 6 mipmap levels, vsync on.
#[test]
fn render_config_defaults() {
    let c = Config::new();
    assert_eq!(c.msaa_samples, 4);
    assert_eq!(c.mipmap_levels, 6);
    assert!(c.vsync);
}
