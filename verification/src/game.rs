//! The running game: tilt state, the physics integrator, the collision
//! engine and the win/lose state machine.
//!
//! Every step of the frame update is mirrored by a spec function, so the
//! contract of `Game::update` pins the exact fixed-point result.

use vstd::prelude::*;

use crate::fixed::{cap_u128, clamp_val, clip, muldiv, sadd, sqrt_floor, ssub, tdiv};
use crate::fixed::{clamp_i64, clip128, isqrt_u128, mul_div, sat_add, sat_sub};
use crate::fixed::{lemma_sqrt_floor_bounds, lemma_tdiv_bound};
use crate::geom::{dist2, dist2_capped, rect_contains, Point, Rect, Size, Velocity};
use crate::level::Level;

verus! {

/// Default ball radius in milli-units (20 board units).
pub const BALL_R: i64 = 20_000;

/// Default hole radius in milli-units (1.2 times the ball radius).
pub const HOLE_R: i64 = 24_000;

/// Default largest board tilt in micro-radians (about pi / 32).
pub const MAX_ANGLE: i64 = 98_175;

/// Default tilt-to-acceleration coefficient, in milli-units per second
/// squared per radian of tilt (about 300 ball radii per second squared
/// per pi radians).
pub const ACCEL_COEFF: i64 = 1_909_859;

/// Default fraction of the normal velocity kept (with inverted sign)
/// after a bounce, in per-mille.
pub const BOUNCE_COEFF: i64 = 200;

/// The tuning constants of the physics core, as an explicit
/// configuration so tests can vary them.
#[derive(Clone, Copy, PartialEq, Eq, Structural, Debug)]
pub struct Params {
    /// Ball radius, milli-units.
    pub ball_r: i64,
    /// Hole radius, milli-units.
    pub hole_r: i64,
    /// Largest board tilt magnitude, micro-radians.
    pub max_angle: i64,
    /// Tilt-to-acceleration coefficient, milli-units / (s^2 * rad).
    pub accel: i64,
    /// Bounce damping, per-mille of the incoming normal velocity.
    pub bounce: i64,
}

/// The default tuning constants.
pub open spec fn default_params_spec() -> Params {
    Params {
        ball_r: BALL_R,
        hole_r: HOLE_R,
        max_angle: MAX_ANGLE,
        accel: ACCEL_COEFF,
        bounce: BOUNCE_COEFF,
    }
}

impl Params {
    /// Sane tuning constants: positive radii, a non-negative clamp and
    /// damping at most one, all well inside the fixed-point range.
    pub open spec fn wf(&self) -> bool {
        &&& 0 < self.ball_r <= 1_000_000_000
        &&& 0 < self.hole_r <= 1_000_000_000
        &&& 0 <= self.max_angle <= 10_000_000
        &&& 0 <= self.accel <= 100_000_000_000
        &&& 0 <= self.bounce <= 1000
    }

    /// The default tuning constants.
    pub fn default_params() -> (p: Params)
        ensures
            p == default_params_spec(),
            p.wf(),
    {
        Params {
            ball_r: BALL_R,
            hole_r: HOLE_R,
            max_angle: MAX_ANGLE,
            accel: ACCEL_COEFF,
            bounce: BOUNCE_COEFF,
        }
    }
}

/// Where a play-through stands. Transitions are one-way: a game leaves
/// `InProgress` at most once, and never leaves `Won` or `Lost`.
#[derive(Clone, Copy, PartialEq, Eq, Structural, Debug)]
pub enum State {
    /// The ball is still rolling.
    InProgress,
    /// The ball reached the goal rectangle.
    Won,
    /// The ball fell into `hole` at time `t_lost` (milliseconds).
    Lost { hole: Point, t_lost: u64 },
}

/// Maintains the state of a single game. A game starts with the ball at
/// the level's start point and ends when the ball either falls into a
/// hole or reaches the goal area. `update` advances the simulation.
pub struct Game {
    pub state: State,
    pub ball_pos: Point,
    pub ball_v: Velocity,
    /// Board tilt about the x axis, micro-radians.
    pub angle_x: i64,
    /// Board tilt about the y axis, micro-radians.
    pub angle_y: i64,
    pub level: Level,
    pub params: Params,
    /// Time of the last `update`; `None` means the next update advances
    /// the physics by no time at all (fresh game, or just unpaused).
    pub prev_update: Option<u64>,
}

impl Game {
    /// A new game on `lvl` with the default tuning constants: ball at
    /// the start point, at rest, board level, no elapsed time.
    pub fn new(lvl: Level) -> (g: Game)
        ensures
            g.state is InProgress,
            g.ball_pos == lvl.start,
            g.ball_v == (Velocity { x: 0, y: 0 }),
            g.angle_x == 0,
            g.angle_y == 0,
            g.level == lvl,
            g.params == default_params_spec(),
            g.prev_update is None,
    {
        Game::with_params(lvl, Params::default_params())
    }

    /// A new game on `lvl` with explicit tuning constants.
    pub fn with_params(lvl: Level, params: Params) -> (g: Game)
        ensures
            g.state is InProgress,
            g.ball_pos == lvl.start,
            g.ball_v == (Velocity { x: 0, y: 0 }),
            g.angle_x == 0,
            g.angle_y == 0,
            g.level == lvl,
            g.params == params,
            g.prev_update is None,
    {
        Game {
            state: State::InProgress,
            ball_pos: lvl.start,
            ball_v: Velocity { x: 0, y: 0 },
            angle_x: 0,
            angle_y: 0,
            level: lvl,
            params,
            prev_update: None,
        }
    }

    /// Add `angle` to the x tilt and clamp it to the allowed range.
    /// With sane constants the tilt therefore never leaves
    /// `[-max_angle, max_angle]`, whatever deltas arrive.
    pub fn rotate_x(&mut self, angle: i64)
        ensures
            final(self).angle_x as int == clamp_val(
                sadd(old(self).angle_x as int, angle as int),
                ssub(0, old(self).params.max_angle as int),
                old(self).params.max_angle as int,
            ),
            old(self).params.max_angle >= 0 ==> -old(self).params.max_angle
                <= final(self).angle_x <= old(self).params.max_angle,
            final(self).angle_y == old(self).angle_y,
            final(self).state == old(self).state,
            final(self).ball_pos == old(self).ball_pos,
            final(self).ball_v == old(self).ball_v,
            final(self).level == old(self).level,
            final(self).params == old(self).params,
            final(self).prev_update == old(self).prev_update,
    {
        self.angle_x = clamp_i64(
            sat_add(self.angle_x, angle),
            sat_sub(0, self.params.max_angle),
            self.params.max_angle,
        );
    }

    /// Add `angle` to the y tilt and clamp it to the allowed range.
    pub fn rotate_y(&mut self, angle: i64)
        ensures
            final(self).angle_y as int == clamp_val(
                sadd(old(self).angle_y as int, angle as int),
                ssub(0, old(self).params.max_angle as int),
                old(self).params.max_angle as int,
            ),
            old(self).params.max_angle >= 0 ==> -old(self).params.max_angle
                <= final(self).angle_y <= old(self).params.max_angle,
            final(self).angle_x == old(self).angle_x,
            final(self).state == old(self).state,
            final(self).ball_pos == old(self).ball_pos,
            final(self).ball_v == old(self).ball_v,
            final(self).level == old(self).level,
            final(self).params == old(self).params,
            final(self).prev_update == old(self).prev_update,
    {
        self.angle_y = clamp_i64(
            sat_add(self.angle_y, angle),
            sat_sub(0, self.params.max_angle),
            self.params.max_angle,
        );
    }

    /// Forget the last update time, so that the next `update` advances
    /// the physics by no time at all. Called when the simulation is
    /// paused or resumed; without it, unpausing would integrate the
    /// whole wall-clock gap as one huge impulse.
    pub fn reset_time(&mut self)
        ensures
            final(self).prev_update is None,
            final(self).state == old(self).state,
            final(self).ball_pos == old(self).ball_pos,
            final(self).ball_v == old(self).ball_v,
            final(self).angle_x == old(self).angle_x,
            final(self).angle_y == old(self).angle_y,
            final(self).level == old(self).level,
            final(self).params == old(self).params,
    {
        self.prev_update = None;
    }
}

/// A detected collision: the displacement that pushes the ball out of
/// the obstacle, and the outward unit normal of the contact, milli-
/// scaled so that a unit vector has length 1000.
#[derive(Clone, Copy, PartialEq, Eq, Structural, Debug)]
pub struct Response {
    pub push_x: i64,
    pub push_y: i64,
    pub normal_x: i64,
    pub normal_y: i64,
}

/// A usable response: the normal components are milli-scaled, so each
/// lies within `[-1000, 1000]`.
pub open spec fn response_wf(r: Response) -> bool {
    -1000 <= r.normal_x <= 1000 && -1000 <= r.normal_y <= 1000
}

/// The milli-scaled dot product of a velocity and a unit normal: the
/// velocity component into the surface.
pub open spec fn dot_normal(vx: int, vy: int, nx: int, ny: int) -> int {
    clip(tdiv(vx * nx + vy * ny, 1000))
}

/// The impulse magnitude of a damped reflection: `(1 + bounce)` times
/// the normal velocity component, with `bounce` in per-mille.
pub open spec fn reflect_impulse(vx: int, vy: int, nx: int, ny: int, bounce: int) -> int {
    muldiv(sadd(1000, bounce), dot_normal(vx, vy, nx, ny), 1000)
}

/// One collision response applied to position and velocity:
/// the push moves the ball out of the obstacle, and the velocity gets a
/// damped reflection about the normal, `v' = v - (1 + bounce) * dot(v, n) * n`,
/// which keeps tangential motion and inverts and damps normal motion.
pub open spec fn respond(
    px: int,
    py: int,
    vx: int,
    vy: int,
    rsp: Response,
    bounce: int,
) -> (int, int, int, int) {
    let j = reflect_impulse(vx, vy, rsp.normal_x as int, rsp.normal_y as int, bounce);
    (
        sadd(px, rsp.push_x as int),
        sadd(py, rsp.push_y as int),
        ssub(vx, muldiv(j, rsp.normal_x as int, 1000)),
        ssub(vy, muldiv(j, rsp.normal_y as int, 1000)),
    )
}

/// `respond` when a response was detected, the unchanged state when not.
pub open spec fn respond_opt(
    px: int,
    py: int,
    vx: int,
    vy: int,
    rsp: Option<Response>,
    bounce: int,
) -> (int, int, int, int) {
    match rsp {
        Some(r) => respond(px, py, vx, vy, r, bounce),
        None => (px, py, vx, vy),
    }
}

/// Apply a detected collision (if any) to a tentative position and
/// velocity: push the ball out and reflect the velocity, damped.
pub fn apply_collision_response(pv: (Point, Velocity), rsp: Option<Response>, bounce: i64) -> (r: (
    Point,
    Velocity,
))
    requires
        rsp matches Some(c) ==> response_wf(c),
    ensures
        (r.0.x as int, r.0.y as int, r.1.x as int, r.1.y as int) == respond_opt(
            pv.0.x as int,
            pv.0.y as int,
            pv.1.x as int,
            pv.1.y as int,
            rsp,
            bounce as int,
        ),
{
    match rsp {
        Some(c) => {
            proof {
                assert(-0x2000_0000_0000_0000_0000int <= (pv.1.x as int) * (c.normal_x as int)
                    <= 0x2000_0000_0000_0000_0000int && -0x2000_0000_0000_0000_0000int <= (
                pv.1.y as int) * (c.normal_y as int) <= 0x2000_0000_0000_0000_0000int)
                    by (nonlinear_arith)
                    requires
                        i64::MIN as int <= pv.1.x as int <= i64::MAX as int,
                        i64::MIN as int <= pv.1.y as int <= i64::MAX as int,
                        -1000 <= c.normal_x as int <= 1000,
                        -1000 <= c.normal_y as int <= 1000,
                ;
            }
            let p128: i128 = (pv.1.x as i128) * (c.normal_x as i128) + (pv.1.y as i128)
                * (c.normal_y as i128);
            let quot: i128 = p128 / 1000;
            let dot: i64 = clip128(quot);
            let j: i64 = mul_div(sat_add(1000, bounce), dot, 1000);
            (
                Point { x: sat_add(pv.0.x, c.push_x), y: sat_add(pv.0.y, c.push_y) },
                Velocity {
                    x: sat_sub(pv.1.x, mul_div(j, c.normal_x, 1000)),
                    y: sat_sub(pv.1.y, mul_div(j, c.normal_y, 1000)),
                },
            )
        },
        None => pv,
    }
}

/// The board's left edge: hit when the ball centre is within a radius
/// of it, boundary contact included, so that a grazing arrival (the
/// ball stopping exactly on its rim) still reflects; the push restores
/// `x = ball_r` and the normal points right.
pub open spec fn left_edge_check(px: int, ball_r: int) -> Option<Response> {
    if px <= ball_r {
        Some(
            Response {
                push_x: ssub(ball_r, px) as i64,
                push_y: 0,
                normal_x: 1000,
                normal_y: 0,
            },
        )
    } else {
        None
    }
}

/// The board's right edge; the push restores `x = w - ball_r` and the
/// normal points left.
pub open spec fn right_edge_check(px: int, w: int, ball_r: int) -> Option<Response> {
    if px >= ssub(w, ball_r) {
        Some(
            Response {
                push_x: ssub(ssub(w, ball_r), px) as i64,
                push_y: 0,
                normal_x: -1000i64,
                normal_y: 0,
            },
        )
    } else {
        None
    }
}

/// The board's top edge; the push restores `y = ball_r` and the normal
/// points down.
pub open spec fn top_edge_check(py: int, ball_r: int) -> Option<Response> {
    if py <= ball_r {
        Some(
            Response {
                push_x: 0,
                push_y: ssub(ball_r, py) as i64,
                normal_x: 0,
                normal_y: 1000,
            },
        )
    } else {
        None
    }
}

/// The board's bottom edge; the push restores `y = h - ball_r` and the
/// normal points up.
pub open spec fn bottom_edge_check(py: int, h: int, ball_r: int) -> Option<Response> {
    if py >= ssub(h, ball_r) {
        Some(
            Response {
                push_x: 0,
                push_y: ssub(ssub(h, ball_r), py) as i64,
                normal_x: 0,
                normal_y: -1000i64,
            },
        )
    } else {
        None
    }
}

/// Detect a collision with the board's left edge.
pub fn detect_board_left_edge_collision(ball_pos: Point, ball_r: i64) -> (r: Option<Response>)
    ensures
        r == left_edge_check(ball_pos.x as int, ball_r as int),
        r matches Some(c) ==> response_wf(c),
{
    if ball_pos.x <= ball_r {
        Some(
            Response {
                push_x: sat_sub(ball_r, ball_pos.x),
                push_y: 0,
                normal_x: 1000,
                normal_y: 0,
            },
        )
    } else {
        None
    }
}

/// Detect a collision with the board's right edge.
pub fn detect_board_right_edge_collision(ball_pos: Point, board_size: Size, ball_r: i64) -> (r:
    Option<Response>)
    ensures
        r == right_edge_check(ball_pos.x as int, board_size.w as int, ball_r as int),
        r matches Some(c) ==> response_wf(c),
{
    let limit: i64 = sat_sub(board_size.w, ball_r);
    if ball_pos.x >= limit {
        Some(
            Response {
                push_x: sat_sub(limit, ball_pos.x),
                push_y: 0,
                normal_x: -1000i64,
                normal_y: 0,
            },
        )
    } else {
        None
    }
}

/// Detect a collision with the board's top edge.
pub fn detect_board_top_edge_collision(ball_pos: Point, ball_r: i64) -> (r: Option<Response>)
    ensures
        r == top_edge_check(ball_pos.y as int, ball_r as int),
        r matches Some(c) ==> response_wf(c),
{
    if ball_pos.y <= ball_r {
        Some(
            Response {
                push_x: 0,
                push_y: sat_sub(ball_r, ball_pos.y),
                normal_x: 0,
                normal_y: 1000,
            },
        )
    } else {
        None
    }
}

/// Detect a collision with the board's bottom edge.
pub fn detect_board_bottom_edge_collision(ball_pos: Point, board_size: Size, ball_r: i64) -> (r:
    Option<Response>)
    ensures
        r == bottom_edge_check(ball_pos.y as int, board_size.h as int, ball_r as int),
        r matches Some(c) ==> response_wf(c),
{
    let limit: i64 = sat_sub(board_size.h, ball_r);
    if ball_pos.y >= limit {
        Some(
            Response {
                push_x: 0,
                push_y: sat_sub(limit, ball_pos.y),
                normal_x: 0,
                normal_y: -1000i64,
            },
        )
    } else {
        None
    }
}

/// A wall collision by the closest-point method. The contact point is
/// the clamp of the ball centre into the wall rectangle; the ball
/// collides when its centre is nearer to that point than one radius.
/// The push moves the ball out along the contact normal by the
/// penetration depth. Degenerate cases (ball centre exactly on the
/// contact point, so no direction exists) are treated as no collision.
pub open spec fn wall_check(px: int, py: int, wall: Rect, ball_r: int) -> Option<Response> {
    let cx = clamp_val(px, wall.pos.x as int, sadd(wall.pos.x as int, wall.size.w as int));
    let cy = clamp_val(py, wall.pos.y as int, sadd(wall.pos.y as int, wall.size.h as int));
    let d2 = dist2(px, py, cx, cy);
    if ball_r <= 0 || d2 == 0 || d2 >= ball_r * ball_r {
        None
    } else {
        let d = sqrt_floor(d2 as nat) as int;
        let nx = tdiv((px - cx) * 1000, d);
        let ny = tdiv((py - cy) * 1000, d);
        Some(
            Response {
                push_x: muldiv(nx, ball_r - d, 1000) as i64,
                push_y: muldiv(ny, ball_r - d, 1000) as i64,
                normal_x: nx as i64,
                normal_y: ny as i64,
            },
        )
    }
}

/// Detect a collision between the ball and one wall rectangle.
pub fn detect_wall_collision(ball_pos: Point, wall: &Rect, ball_r: i64) -> (r: Option<Response>)
    ensures
        r == wall_check(ball_pos.x as int, ball_pos.y as int, *wall, ball_r as int),
        r matches Some(c) ==> response_wf(c),
{
    let ghost px = ball_pos.x as int;
    let ghost py = ball_pos.y as int;
    if ball_r <= 0 {
        return None;
    }
    let closest = wall.closest_point(ball_pos);
    let ghost cx = closest.x as int;
    let ghost cy = closest.y as int;
    let ghost d2 = dist2(px, py, cx, cy);
    proof {
        assert((px - cx) * (px - cx) >= 0 && (py - cy) * (py - cy) >= 0 && (px - cx) * (px - cx)
            <= d2 && (py - cy) * (py - cy) <= d2) by (nonlinear_arith)
            requires
                d2 == (px - cx) * (px - cx) + (py - cy) * (py - cy),
        ;
    }
    let d2c: u128 = dist2_capped(ball_pos, closest);
    if d2c == 0 {
        return None;
    }
    proof {
        assert((ball_r as int) * (ball_r as int) <= 0x4000_0000_0000_0000_0000_0000_0000_0000int)
            by (nonlinear_arith)
            requires
                0 < ball_r as int <= 0x8000_0000_0000_0000int,
        ;
    }
    let r2: u128 = (ball_r as u128) * (ball_r as u128);
    if d2c >= r2 {
        return None;
    }
    // Saturation in `dist2_capped` cannot have fired here: the capped
    // value sits below the (much smaller) squared radius.
    proof {
        assert(d2c as int == d2);
    }
    let d_u64: u64 = isqrt_u128(d2c);
    proof {
        lemma_sqrt_floor_bounds(d2c as nat);
        assert(d_u64 as int >= 1) by {
            if d_u64 as int == 0 {
                assert((d_u64 as int + 1) * (d_u64 as int + 1) == 1) by (nonlinear_arith)
                    requires
                        d_u64 as int == 0,
                ;
            }
        }
        assert((d_u64 as int) < (ball_r as int)) by (nonlinear_arith)
            requires
                (d_u64 as int) * (d_u64 as int) <= d2c as int,
                (d2c as int) < (ball_r as int) * (ball_r as int),
                d_u64 as int >= 0,
                ball_r as int > 0,
        ;
    }
    let d: i64 = d_u64 as i64;
    let dx: i128 = ball_pos.x as i128 - closest.x as i128;
    let dy: i128 = ball_pos.y as i128 - closest.y as i128;
    proof {
        // Each coordinate gap is at most the full distance `d`.
        assert(-(d as int) <= dx as int <= d as int && -(d as int) <= dy as int <= d as int)
            by (nonlinear_arith)
            requires
                (dx as int) * (dx as int) <= d2c as int,
                (dy as int) * (dy as int) <= d2c as int,
                (d as int) * (d as int) <= d2c as int,
                (d2c as int) < (d as int + 1) * (d as int + 1),
                d as int >= 0,
        ;
        lemma_tdiv_bound((dx as int) * 1000, d as int, 1000);
        lemma_tdiv_bound((dy as int) * 1000, d as int, 1000);
        assert(-(1000 * (d as int)) <= (dx as int) * 1000 <= 1000 * (d as int) && -(1000 * (
        d as int)) <= (dy as int) * 1000 <= 1000 * (d as int)) by (nonlinear_arith)
            requires
                -(d as int) <= dx as int <= d as int,
                -(d as int) <= dy as int <= d as int,
        ;
    }
    let nx128: i128 = (dx * 1000) / (d as i128);
    let ny128: i128 = (dy * 1000) / (d as i128);
    let nx: i64 = nx128 as i64;
    let ny: i64 = ny128 as i64;
    let depth: i64 = ball_r - d;
    Some(
        Response {
            push_x: mul_div(nx, depth, 1000),
            push_y: mul_div(ny, depth, 1000),
            normal_x: nx,
            normal_y: ny,
        },
    )
}

/// The four fixed-point coordinates of a position/velocity pair, the
/// value the collision contracts speak about.
pub open spec fn pv_model(pv: (Point, Velocity)) -> (int, int, int, int) {
    (pv.0.x as int, pv.0.y as int, pv.1.x as int, pv.1.y as int)
}

/// Elapsed time of one update in milliseconds: the gap since the last
/// update, zero when there was none, saturated into the `i64` range.
pub open spec fn dt_millis(prev: Option<u64>, now: u64) -> int {
    match prev {
        Some(t0) => clip(now - t0),
        None => 0,
    }
}

/// One semi-implicit Euler velocity step: the tilt angle (micro-radians)
/// times the acceleration coefficient gives the acceleration, which acts
/// over `dt` milliseconds.
pub open spec fn integrate_v(v: int, tilt: int, accel: int, dt: int) -> int {
    sadd(v, muldiv(muldiv(tilt, accel, 1_000_000), dt, 1000))
}

/// The integrator: update both velocity components from the tilt, then
/// move the position by the new velocity (semi-implicit Euler).
pub open spec fn integrate_pv(g: Game, dt: int) -> (int, int, int, int) {
    let vx = integrate_v(g.ball_v.x as int, g.angle_x as int, g.params.accel as int, dt);
    let vy = integrate_v(g.ball_v.y as int, g.angle_y as int, g.params.accel as int, dt);
    (
        sadd(g.ball_pos.x as int, muldiv(vx, dt, 1000)),
        sadd(g.ball_pos.y as int, muldiv(vy, dt, 1000)),
        vx,
        vy,
    )
}

/// All four board edges, applied in order: left, right, top, bottom.
/// Each check sees the position already corrected by the previous one.
pub open spec fn pass_edges(
    pv: (int, int, int, int),
    w: int,
    h: int,
    ball_r: int,
    bounce: int,
) -> (int, int, int, int) {
    let a = respond_opt(pv.0, pv.1, pv.2, pv.3, left_edge_check(pv.0, ball_r), bounce);
    let b = respond_opt(a.0, a.1, a.2, a.3, right_edge_check(a.0, w, ball_r), bounce);
    let c = respond_opt(b.0, b.1, b.2, b.3, top_edge_check(b.1, ball_r), bounce);
    respond_opt(c.0, c.1, c.2, c.3, bottom_edge_check(c.1, h, ball_r), bounce)
}

/// The walls as a sequential fold in declaration order: each wall's
/// response applies to the state left by all earlier walls.
pub open spec fn pass_walls(
    walls: Seq<Rect>,
    pv: (int, int, int, int),
    ball_r: int,
    bounce: int,
) -> (int, int, int, int)
    decreases walls.len(),
{
    if walls.len() == 0 {
        pv
    } else {
        let q = respond_opt(pv.0, pv.1, pv.2, pv.3, wall_check(pv.0, pv.1, walls[0], ball_r), bounce);
        pass_walls(walls.drop_first(), q, ball_r, bounce)
    }
}

/// The whole collision pass: the four board edges strictly before the
/// walls, each correction building on the previous one.
pub open spec fn collide_pv(level: Level, params: Params, pv: (int, int, int, int)) -> (
    int,
    int,
    int,
    int,
) {
    pass_walls(
        level.walls@,
        pass_edges(
            pv,
            level.size.w as int,
            level.size.h as int,
            params.ball_r as int,
            params.bounce as int,
        ),
        params.ball_r as int,
        params.bounce as int,
    )
}

/// The position and velocity one `update` at `time` computes: the
/// integrator's tentative state, corrected by the collision pass.
pub open spec fn step_pv(g: Game, time: u64) -> (int, int, int, int) {
    collide_pv(g.level, g.params, integrate_pv(g, dt_millis(g.prev_update, time)))
}

/// The first hole (in level order) whose centre is nearer to the ball
/// centre than the hole radius.
pub open spec fn hole_hit(holes: Seq<Point>, px: int, py: int, hole_r: int) -> Option<Point>
    decreases holes.len(),
{
    if holes.len() == 0 {
        None
    } else if hole_r > 0 && dist2(px, py, holes[0].x as int, holes[0].y as int) < hole_r * hole_r {
        Some(holes[0])
    } else {
        hole_hit(holes.drop_first(), px, py, hole_r)
    }
}

/// The state one `update` at `time` leaves behind: `Won` when the
/// corrected position lies in the goal, else `Lost` at the first hole
/// the ball is over, else still `InProgress`.
pub open spec fn state_after(g: Game, time: u64) -> State {
    let pv = step_pv(g, time);
    if rect_contains(g.level.end, pv.0, pv.1) {
        State::Won
    } else {
        match hole_hit(g.level.holes@, pv.0, pv.1, g.params.hole_r as int) {
            Some(h) => State::Lost { hole: h, t_lost: time },
            None => State::InProgress,
        }
    }
}

impl Game {
    /// The integrator: the tentative position and velocity after `time`,
    /// before any collision correction.
    pub fn do_physics(&self, time: u64) -> (pv: (Point, Velocity))
        requires
            self.prev_update matches Some(t0) ==> t0 <= time,
        ensures
            pv_model(pv) == integrate_pv(*self, dt_millis(self.prev_update, time)),
    {
        let dt_u: u64 = match self.prev_update {
            Some(t0) => time - t0,
            None => 0,
        };
        let dt: i64 = if dt_u > i64::MAX as u64 {
            i64::MAX
        } else {
            dt_u as i64
        };
        let vx: i64 = sat_add(self.ball_v.x, mul_div(mul_div(self.angle_x, self.params.accel, 1_000_000), dt, 1000));
        let vy: i64 = sat_add(self.ball_v.y, mul_div(mul_div(self.angle_y, self.params.accel, 1_000_000), dt, 1000));
        let px: i64 = sat_add(self.ball_pos.x, mul_div(vx, dt, 1000));
        let py: i64 = sat_add(self.ball_pos.y, mul_div(vy, dt, 1000));
        (Point { x: px, y: py }, Velocity { x: vx, y: vy })
    }

    /// The collision engine: correct a tentative position and velocity
    /// against the four board edges and then each wall, in order.
    pub fn detect_collisions(&self, pv: (Point, Velocity)) -> (r: (Point, Velocity))
        ensures
            pv_model(r) == collide_pv(self.level, self.params, pv_model(pv)),
    {
        let ball_r: i64 = self.params.ball_r;
        let bounce: i64 = self.params.bounce;
        let mut cur = apply_collision_response(
            pv,
            detect_board_left_edge_collision(pv.0, ball_r),
            bounce,
        );
        cur = apply_collision_response(
            cur,
            detect_board_right_edge_collision(cur.0, self.level.size, ball_r),
            bounce,
        );
        cur = apply_collision_response(
            cur,
            detect_board_top_edge_collision(cur.0, ball_r),
            bounce,
        );
        cur = apply_collision_response(
            cur,
            detect_board_bottom_edge_collision(cur.0, self.level.size, ball_r),
            bounce,
        );
        let ghost pv_edges = pv_model(cur);
        proof {
            assert(self.level.walls@.skip(0) =~= self.level.walls@);
        }
        let mut i: usize = 0;
        while i < self.level.walls.len()
            invariant
                0 <= i <= self.level.walls@.len(),
                ball_r == self.params.ball_r,
                bounce == self.params.bounce,
                pass_walls(self.level.walls@.skip(i as int), pv_model(cur), ball_r as int, bounce as int)
                    == pass_walls(self.level.walls@, pv_edges, ball_r as int, bounce as int),
            decreases self.level.walls@.len() - i,
        {
            let resp = detect_wall_collision(cur.0, &self.level.walls[i], ball_r);
            cur = apply_collision_response(cur, resp, bounce);
            proof {
                let s = self.level.walls@.skip(i as int);
                assert(s[0] == self.level.walls@[i as int]);
                assert(s.drop_first() =~= self.level.walls@.skip(i as int + 1));
            }
            i = i + 1;
        }
        proof {
            assert(self.level.walls@.skip(self.level.walls@.len() as int) =~= Seq::<Rect>::empty());
        }
        cur
    }

    /// Advance the simulation to `time` (milliseconds, monotone).
    ///
    /// Once the game is won or lost, this changes nothing at all.
    /// While in progress it runs the integrator and the collision
    /// engine, transitions to `Won` when the corrected position lies in
    /// the goal, else to `Lost` over the first hole the ball covers,
    /// and always stores the corrected position, the corrected velocity
    /// and the update time (so the final resting state at the moment of
    /// winning or losing is preserved for rendering).
    pub fn update(&mut self, time: u64)
        requires
            old(self).state is InProgress ==> (old(self).prev_update matches Some(t0) ==> t0
                <= time),
        ensures
            !(old(self).state is InProgress) ==> *final(self) == *old(self),
            old(self).state is InProgress ==> {
                let pv = step_pv(*old(self), time);
                &&& final(self).ball_pos.x as int == pv.0
                &&& final(self).ball_pos.y as int == pv.1
                &&& final(self).ball_v.x as int == pv.2
                &&& final(self).ball_v.y as int == pv.3
                &&& final(self).state == state_after(*old(self), time)
                &&& final(self).prev_update == Some(time)
            },
            final(self).angle_x == old(self).angle_x,
            final(self).angle_y == old(self).angle_y,
            final(self).level == old(self).level,
            final(self).params == old(self).params,
    {
        match self.state {
            State::InProgress => (),
            _ => {
                return ;
            },
        }
        let pv = self.detect_collisions(self.do_physics(time));
        let p = pv.0;
        let v = pv.1;
        if self.level.end.contains(p) {
            self.state = State::Won;
        } else {
            match find_hole(&self.level.holes, p, self.params.hole_r) {
                Some(h) => {
                    self.state = State::Lost { hole: h, t_lost: time };
                },
                None => (),
            }
        }
        self.prev_update = Some(time);
        self.ball_pos = p;
        self.ball_v = v;
    }
}

/// The first hole whose centre the ball centre has come nearer to than
/// the hole radius, in level order.
fn find_hole(holes: &Vec<Point>, p: Point, hole_r: i64) -> (r: Option<Point>)
    ensures
        r == hole_hit(holes@, p.x as int, p.y as int, hole_r as int),
{
    proof {
        assert(holes@.skip(0) =~= holes@);
    }
    if hole_r <= 0 {
        proof {
            lemma_hole_hit_no_radius(holes@, p.x as int, p.y as int, hole_r as int);
        }
        return None;
    }
    proof {
        assert((hole_r as int) * (hole_r as int) <= 0x4000_0000_0000_0000_0000_0000_0000_0000int)
            by (nonlinear_arith)
            requires
                0 < hole_r as int <= 0x8000_0000_0000_0000int,
        ;
    }
    let r2: u128 = (hole_r as u128) * (hole_r as u128);
    let mut i: usize = 0;
    while i < holes.len()
        invariant
            0 <= i <= holes@.len(),
            hole_r > 0,
            r2 == (hole_r as int) * (hole_r as int),
            hole_hit(holes@.skip(i as int), p.x as int, p.y as int, hole_r as int) == hole_hit(
                holes@,
                p.x as int,
                p.y as int,
                hole_r as int,
            ),
        decreases holes@.len() - i,
    {
        let d2c: u128 = dist2_capped(p, holes[i]);
        proof {
            let s = holes@.skip(i as int);
            assert(s[0] == holes@[i as int]);
            assert(s.drop_first() =~= holes@.skip(i as int + 1));
            let hx = holes@[i as int].x as int;
            let hy = holes@[i as int].y as int;
            let d2 = dist2(p.x as int, p.y as int, hx, hy);
            assert(d2 >= 0) by (nonlinear_arith)
                requires
                    d2 == (p.x as int - hx) * (p.x as int - hx) + (p.y as int - hy) * (p.y as int
                        - hy),
            ;
        }
        if d2c < r2 {
            return Some(holes[i]);
        }
        i = i + 1;
    }
    proof {
        assert(holes@.skip(holes@.len() as int) =~= Seq::<Point>::empty());
    }
    None
}

/// Without a positive hole radius no hole is ever hit.
proof fn lemma_hole_hit_no_radius(holes: Seq<Point>, px: int, py: int, hole_r: int)
    requires
        hole_r <= 0,
    ensures
        hole_hit(holes, px, py, hole_r) is None,
    decreases holes.len(),
{
    if holes.len() > 0 {
        lemma_hole_hit_no_radius(holes.drop_first(), px, py, hole_r);
    }
}

} // verus!
