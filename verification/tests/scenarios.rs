// End-to-end scenarios of the physics core, with exact expected values
// in the fixed-point units (milli-units, milliseconds, micro-radians).

use labyrinth::fall::animate_fall;
use labyrinth::game::{Game, Params, State};
use labyrinth::geom::{Point, Rect, Size, Velocity};
use labyrinth::level::Level;

fn board(w: i64, h: i64, walls: Vec<Rect>, holes: Vec<Point>) -> Level {
    Level::new(
        String::from("test board"),
        Size { w, h },
        Point { x: w / 2, y: h / 2 },
        // A goal region in the lower right quarter, away from the action.
        Rect {
            pos: Point { x: 300_000, y: 200_000 },
            size: Size { w: 50_000, h: 50_000 },
        },
        walls,
        holes,
    )
    .expect("well-formed test level")
}

/// A ball drifting into the left edge is clamped to one radius and its
/// normal velocity is reflected and damped to a fifth, exactly.
#[test]
fn left_edge_bounce_exact() {
    let mut g = Game::new(board(400_000, 300_000, vec![], vec![]));
    g.ball_pos = Point { x: 25_000, y: 150_000 };
    g.ball_v = Velocity { x: -50_000, y: 0 };
    g.prev_update = Some(0);
    g.update(100); // dt = 0.1 s
    assert_eq!(g.ball_pos, Point { x: 20_000, y: 150_000 });
    assert_eq!(g.ball_v, Velocity { x: 10_000, y: 0 });
    assert!(matches!(g.state, State::InProgress));
    assert_eq!(g.prev_update, Some(100));
}

/// A ball passing near a hole centre loses the game, recording the
/// hole and the time of the loss.
#[test]
fn ball_over_hole_loses() {
    let hole = Point { x: 100_000, y: 100_000 };
    let mut g = Game::new(board(400_000, 300_000, vec![], vec![hole]));
    // Within 10 board units of the hole centre: well under HOLE_R = 24.
    g.ball_pos = Point { x: 105_000, y: 100_000 };
    g.prev_update = Some(500);
    g.update(777);
    assert_eq!(g.ball_pos, Point { x: 105_000, y: 100_000 });
    match g.state {
        State::Lost { hole: h, t_lost } => {
            assert_eq!(h, hole);
            assert_eq!(t_lost, 777);
        }
        other => panic!("expected a loss, got {:?}", other),
    }
}

/// With two overlapping holes, the first in level order wins.
#[test]
fn first_hole_in_level_order_wins() {
    let h1 = Point { x: 100_000, y: 100_000 };
    let h2 = Point { x: 102_000, y: 100_000 };
    let mut g = Game::new(board(400_000, 300_000, vec![], vec![h1, h2]));
    g.ball_pos = Point { x: 101_000, y: 100_000 };
    g.update(5);
    match g.state {
        State::Lost { hole, .. } => assert_eq!(hole, h1),
        other => panic!("expected a loss, got {:?}", other),
    }
}

/// Rolling over the rim: halfway through the roll-over the ball sits
/// between its resting point and the rim-crossing point, still above
/// the board; after the total duration the animation is over.
#[test]
fn fall_animation_phases() {
    let params = Params::default_params();
    let ball0 = Point { x: 100_000, y: 76_000 };
    let hole = Point { x: 100_000, y: 100_000 };

    // t = 0.05 s, inside the roll-over phase.
    let mid = animate_fall(&params, 50, ball0, hole).expect("animation still running");
    assert_eq!(mid.x, 100_000);
    assert_eq!(mid.y, 86_000); // halfway from 76 to the rim point at 96
    assert!(mid.y > ball0.y && mid.y < 96_000);
    assert!(mid.height > 0);
    assert_eq!(mid.height, 17_320); // floor of sqrt(20^2 - 10^2) * 1000

    // t = 0.15 s, free fall at the rim-crossing point.
    let fall = animate_fall(&params, 150, ball0, hole).expect("animation still running");
    assert_eq!(fall.x, 100_000);
    assert_eq!(fall.y, 96_000);
    assert_eq!(fall.height, -30_000); // halfway down 3 ball radii

    // t = 0.25 s >= 0.2 s: done.
    assert!(animate_fall(&params, 250, ball0, hole).is_none());
}

/// The ball at the hole centre has no rim direction to roll towards:
/// it stays put and drops straight down.
#[test]
fn fall_animation_degenerate_centre() {
    let params = Params::default_params();
    let hole = Point { x: 50_000, y: 50_000 };
    let s = animate_fall(&params, 50, hole, hole).expect("animation still running");
    assert_eq!((s.x, s.y), (50_000, 50_000));
}

/// Once won, further updates change nothing at all.
#[test]
fn terminal_state_is_stable() {
    let mut g = Game::new(board(400_000, 300_000, vec![], vec![]));
    // Drop the ball inside the goal rectangle.
    g.ball_pos = Point { x: 310_000, y: 210_000 };
    g.update(10);
    assert!(matches!(g.state, State::Won));
    let pos = g.ball_pos;
    let v = g.ball_v;
    let prev = g.prev_update;
    g.update(999_999);
    assert!(matches!(g.state, State::Won));
    assert_eq!(g.ball_pos, pos);
    assert_eq!(g.ball_v, v);
    assert_eq!(g.prev_update, prev);
}

/// Once lost, the ball also freezes: the fall animation is driven
/// outside the game state.
#[test]
fn lost_state_is_stable() {
    let hole = Point { x: 100_000, y: 100_000 };
    let mut g = Game::new(board(400_000, 300_000, vec![], vec![hole]));
    g.ball_pos = Point { x: 100_000, y: 101_000 };
    g.ball_v = Velocity { x: 7_000, y: 0 };
    g.update(42);
    let state = g.state;
    assert!(matches!(state, State::Lost { .. }));
    g.update(43);
    assert_eq!(g.state, state);
    assert_eq!(g.ball_pos, Point { x: 100_000, y: 101_000 });
}

/// Pause idempotence: resetting the clock and updating gives the same
/// ball state as updating a fresh game built from the same snapshot.
#[test]
fn pause_then_update_matches_fresh_game() {
    let mut g = Game::new(board(400_000, 300_000, vec![], vec![]));
    g.rotate_x(40_000);
    g.rotate_y(-25_000);
    g.ball_pos = Point { x: 200_000, y: 150_000 };
    g.ball_v = Velocity { x: 33_000, y: -11_000 };
    g.update(1_000);
    g.update(1_250);

    // Pause, then resume at a much later time.
    g.reset_time();
    let mut fresh = Game::new(board(400_000, 300_000, vec![], vec![]));
    fresh.ball_pos = g.ball_pos;
    fresh.ball_v = g.ball_v;
    fresh.rotate_x(g.angle_x);
    fresh.rotate_y(g.angle_y);

    g.update(2_000_000);
    fresh.update(2_000_000);
    assert_eq!(g.ball_pos, fresh.ball_pos);
    assert_eq!(g.ball_v, fresh.ball_v);
}

/// A huge frame gap right after a pause causes no impulse: with the
/// clock reset, the ball does not move.
#[test]
fn no_jump_after_pause() {
    let mut g = Game::new(board(400_000, 300_000, vec![], vec![]));
    g.rotate_x(90_000);
    g.ball_pos = Point { x: 200_000, y: 150_000 };
    g.update(1_000);
    let pos = g.ball_pos;
    g.reset_time();
    g.update(3_600_000_000); // an hour later
    assert_eq!(g.ball_pos, pos);
}

/// A fast ball is kept inside the playable band on every axis.
#[test]
fn ball_never_leaves_board() {
    let mut g = Game::new(board(400_000, 300_000, vec![], vec![]));
    g.ball_pos = Point { x: 200_000, y: 150_000 };
    g.ball_v = Velocity { x: 5_000_000, y: -9_000_000 };
    g.prev_update = Some(0);
    g.update(1_000); // one full second: far past both edges before clamping
    assert!(20_000 <= g.ball_pos.x && g.ball_pos.x <= 380_000);
    assert!(20_000 <= g.ball_pos.y && g.ball_pos.y <= 280_000);
}

/// A wall collision pushes the ball out along the contact normal and
/// reflects the normal velocity, damped to a fifth.
#[test]
fn wall_bounce_exact() {
    let wall = Rect {
        pos: Point { x: 200_000, y: 100_000 },
        size: Size { w: 40_000, h: 100_000 },
    };
    let mut g = Game::new(board(400_000, 300_000, vec![wall], vec![]));
    g.ball_pos = Point { x: 190_000, y: 150_000 }; // 10 units into the ball's radius
    g.ball_v = Velocity { x: 50_000, y: 0 };
    g.prev_update = Some(100);
    g.update(100); // dt = 0: only the collision pass acts
    assert_eq!(g.ball_pos, Point { x: 180_000, y: 150_000 });
    assert_eq!(g.ball_v, Velocity { x: -10_000, y: 0 });
}

/// With the bounce coefficient zero, a head-on wall hit leaves no
/// normal velocity at all.
#[test]
fn dead_bounce_with_zero_coefficient() {
    let mut params = Params::default_params();
    params.bounce = 0;
    let wall = Rect {
        pos: Point { x: 200_000, y: 100_000 },
        size: Size { w: 40_000, h: 100_000 },
    };
    let mut g = Game::with_params(board(400_000, 300_000, vec![wall], vec![]), params);
    g.ball_pos = Point { x: 190_000, y: 150_000 };
    g.ball_v = Velocity { x: 50_000, y: 12_345 };
    g.prev_update = Some(100);
    g.update(100);
    assert_eq!(g.ball_v, Velocity { x: 0, y: 12_345 }); // tangential motion kept
}

/// The loss condition is strict: a ball exactly one hole radius from
/// the centre is not yet over the hole.
#[test]
fn hole_rim_is_not_inside() {
    let hole = Point { x: 100_000, y: 100_000 };
    let mut g = Game::new(board(400_000, 300_000, vec![], vec![hole]));
    g.ball_pos = Point { x: 124_000, y: 100_000 }; // exactly HOLE_R away
    g.update(9);
    assert!(matches!(g.state, State::InProgress));
    let mut g = Game::new(board(400_000, 300_000, vec![], vec![hole]));
    g.ball_pos = Point { x: 123_999, y: 100_000 }; // one milli-unit closer
    g.update(9);
    assert!(matches!(g.state, State::Lost { .. }));
}

/// The goal region is half-open, also as seen through `update`: its
/// top-left corner wins, its far boundary does not.
#[test]
fn goal_boundaries_through_update() {
    let mut g = Game::new(board(400_000, 300_000, vec![], vec![]));
    g.ball_pos = Point { x: 300_000, y: 200_000 }; // goal's top-left corner
    g.update(1);
    assert!(matches!(g.state, State::Won));
    let mut g = Game::new(board(400_000, 300_000, vec![], vec![]));
    g.ball_pos = Point { x: 350_000, y: 220_000 }; // exactly on the right boundary
    g.update(1);
    assert!(matches!(g.state, State::InProgress));
}

/// At the phase boundary the free fall starts at the rim-crossing
/// point with height zero.
#[test]
fn fall_animation_phase_boundary() {
    let params = Params::default_params();
    let ball0 = Point { x: 100_000, y: 76_000 };
    let hole = Point { x: 100_000, y: 100_000 };
    let s = animate_fall(&params, 100, ball0, hole).expect("animation still running");
    assert_eq!((s.x, s.y, s.height), (100_000, 96_000, 0));
    assert!(animate_fall(&params, 200, ball0, hole).is_none());
}

/// The right and bottom edges mirror the left-edge behaviour: clamp
/// to one radius from the edge and damp the reflected velocity.
#[test]
fn right_and_bottom_edge_bounce() {
    let mut g = Game::new(board(400_000, 300_000, vec![], vec![]));
    g.ball_pos = Point { x: 375_000, y: 150_000 };
    g.ball_v = Velocity { x: 50_000, y: 0 };
    g.prev_update = Some(0);
    g.update(100);
    assert_eq!(g.ball_pos, Point { x: 380_000, y: 150_000 });
    assert_eq!(g.ball_v, Velocity { x: -10_000, y: 0 });

    let mut g = Game::new(board(400_000, 300_000, vec![], vec![]));
    g.ball_pos = Point { x: 100_000, y: 275_000 };
    g.ball_v = Velocity { x: 0, y: 50_000 };
    g.prev_update = Some(0);
    g.update(100);
    assert_eq!(g.ball_pos, Point { x: 100_000, y: 280_000 });
    assert_eq!(g.ball_v, Velocity { x: 0, y: -10_000 });
}

/// A resting ball overlapping a wall corner is pushed out along the
/// diagonal contact normal; with no incoming velocity none appears.
#[test]
fn wall_corner_pushout() {
    let wall = Rect {
        pos: Point { x: 200_000, y: 100_000 },
        size: Size { w: 40_000, h: 100_000 },
    };
    let mut g = Game::new(board(400_000, 300_000, vec![wall], vec![]));
    // 9 units left, 12 units up of the corner: 15 < 20 away.
    g.ball_pos = Point { x: 191_000, y: 88_000 };
    g.prev_update = Some(50);
    g.update(50); // dt = 0: only the collision pass acts
    assert_eq!(g.ball_pos, Point { x: 188_000, y: 84_000 });
    assert_eq!(g.ball_v, Velocity { x: 0, y: 0 });
}

/// Tilting accelerates the ball: the semi-implicit Euler step adds the
/// acceleration to the velocity first, then moves by the new velocity.
#[test]
fn tilt_accelerates_ball_exactly() {
    let mut g = Game::new(board(400_000, 300_000, vec![], vec![]));
    g.ball_pos = Point { x: 200_000, y: 150_000 };
    g.rotate_x(10_000); // micro-radians
    g.prev_update = Some(0);
    g.update(100);
    // accel = 10_000 * 1_909_859 / 1_000_000 = 19_098 milli-units/s^2,
    // dv = 19_098 * 100 / 1000 = 1_909 milli-units/s,
    // dp = 1_909 * 100 / 1000 = 190 milli-units.
    assert_eq!(g.ball_v, Velocity { x: 1_909, y: 0 });
    assert_eq!(g.ball_pos, Point { x: 200_190, y: 150_000 });
}
