// The collision primitives one by one: edge detection, wall detection
// by the closest-point method, and the damped reflection.

use labyrinth::game::{
    apply_collision_response, detect_board_bottom_edge_collision, detect_board_left_edge_collision,
    detect_board_right_edge_collision, detect_board_top_edge_collision, detect_wall_collision,
};
use labyrinth::geom::{Point, Rect, Size, Velocity};

const BALL_R: i64 = 20_000;

fn wall() -> Rect {
    Rect { pos: Point { x: 200_000, y: 100_000 }, size: Size { w: 40_000, h: 100_000 } }
}

/// Each edge detector fires exactly when the ball centre is within a
/// radius of its edge, including a grazing contact on the boundary.
#[test]
fn edge_detection_thresholds() {
    let size = Size { w: 400_000, h: 300_000 };
    let at = |x: i64, y: i64| Point { x, y };

    assert!(detect_board_left_edge_collision(at(19_999, 0), BALL_R).is_some());
    assert!(detect_board_left_edge_collision(at(20_000, 0), BALL_R).is_some()); // grazing
    assert!(detect_board_left_edge_collision(at(20_001, 0), BALL_R).is_none());

    assert!(detect_board_right_edge_collision(at(380_000, 0), size, BALL_R).is_some());
    assert!(detect_board_right_edge_collision(at(379_999, 0), size, BALL_R).is_none());

    assert!(detect_board_top_edge_collision(at(0, 20_000), BALL_R).is_some());
    assert!(detect_board_top_edge_collision(at(0, 20_001), BALL_R).is_none());

    assert!(detect_board_bottom_edge_collision(at(0, 280_000), size, BALL_R).is_some());
    assert!(detect_board_bottom_edge_collision(at(0, 279_999), size, BALL_R).is_none());
}

/// The left-edge response pushes the ball back to one radius and
/// points its normal into the board.
#[test]
fn left_edge_response_values() {
    let r = detect_board_left_edge_collision(Point { x: 15_000, y: 50_000 }, BALL_R).unwrap();
    assert_eq!((r.push_x, r.push_y), (5_000, 0));
    assert_eq!((r.normal_x, r.normal_y), (1_000, 0));
}

/// A face-on wall contact: the closest point sits on the wall face,
/// the normal is axis-aligned, and the push restores one radius of
/// separation.
#[test]
fn wall_detection_face_contact() {
    let r = detect_wall_collision(Point { x: 190_000, y: 150_000 }, &wall(), BALL_R).unwrap();
    assert_eq!((r.push_x, r.push_y), (-10_000, 0));
    assert_eq!((r.normal_x, r.normal_y), (-1_000, 0));
}

/// A corner contact: the normal points diagonally away from the
/// corner, scaled to (about) unit length in milli-scale.
#[test]
fn wall_detection_corner_contact() {
    // Ball centre 9 units left and 12 units up of the corner (200, 100):
    // distance 15 < 20, normal along (-9, -12)/15 = (-600, -800).
    let r = detect_wall_collision(Point { x: 191_000, y: 88_000 }, &wall(), BALL_R).unwrap();
    assert_eq!((r.normal_x, r.normal_y), (-600, -800));
    // Push: 5 units of penetration along that normal.
    assert_eq!((r.push_x, r.push_y), (-3_000, -4_000));
}

/// No contact once the ball is a full radius away from the wall.
#[test]
fn wall_detection_misses() {
    assert!(detect_wall_collision(Point { x: 180_000, y: 150_000 }, &wall(), BALL_R).is_none());
    assert!(detect_wall_collision(Point { x: 179_999, y: 150_000 }, &wall(), BALL_R).is_none());
    assert!(detect_wall_collision(Point { x: 179_000, y: 150_000 }, &wall(), BALL_R).is_none());
    assert!(detect_wall_collision(Point { x: 260_001, y: 150_000 }, &wall(), BALL_R).is_none());
}

/// A ball centre inside the wall rectangle coincides with its own
/// closest point: no direction exists, and the guard reports no
/// collision rather than failing.
#[test]
fn wall_detection_degenerate_centre_inside() {
    assert!(detect_wall_collision(Point { x: 220_000, y: 150_000 }, &wall(), BALL_R).is_none());
}

/// The damped reflection keeps tangential velocity and inverts and
/// damps the normal component.
#[test]
fn reflection_keeps_tangential_motion() {
    let pv = (Point { x: 190_000, y: 150_000 }, Velocity { x: 50_000, y: 30_000 });
    let resp = detect_wall_collision(pv.0, &wall(), BALL_R);
    let (p, v) = apply_collision_response(pv, resp, 200);
    assert_eq!(p, Point { x: 180_000, y: 150_000 });
    assert_eq!(v, Velocity { x: -10_000, y: 30_000 });
}

/// No response leaves position and velocity untouched.
#[test]
fn no_response_is_identity() {
    let pv = (Point { x: 1, y: 2 }, Velocity { x: 3, y: 4 });
    let (p, v) = apply_collision_response(pv, None, 200);
    assert_eq!(p, Point { x: 1, y: 2 });
    assert_eq!(v, Velocity { x: 3, y: 4 });
}
