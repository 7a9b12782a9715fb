//! Laws of the physics core, proved for all inputs: half-open
//! containment, the frozen first tick after a pause, the exact energy
//! loss of a head-on bounce, and freedom from persistent penetration
//! of the board edges and of face-hit walls.

use vstd::prelude::*;

use crate::fixed::{clamp_val, muldiv, sadd, sqrt_floor, tdiv};
use crate::fixed::{lemma_sqrt_floor_unique, lemma_tdiv_bound, lemma_tdiv_exact};
use crate::game::{
    bottom_edge_check, dot_normal, dt_millis, integrate_pv, left_edge_check, pass_edges,
    pass_walls, respond, respond_opt, right_edge_check, step_pv, top_edge_check, wall_check, Game,
    Response,
};
use crate::geom::{dist2, rect_contains, Rect};
use crate::level::rect_ok;

verus! {

/// Containment is half-open: a point exactly on a rectangle's right or
/// bottom boundary lies outside, while one on its left or top boundary
/// lies inside whenever the other coordinate is inside as well.
pub proof fn lemma_contains_half_open(r: Rect, px: int, py: int)
    requires
        rect_ok(r),
    ensures
        px == r.pos.x + r.size.w ==> !rect_contains(r, px, py),
        py == r.pos.y + r.size.h ==> !rect_contains(r, px, py),
        px == r.pos.x && r.pos.y <= py < r.pos.y + r.size.h ==> rect_contains(r, px, py),
        py == r.pos.y && r.pos.x <= px < r.pos.x + r.size.w ==> rect_contains(r, px, py),
{
}

/// With no recorded update time the integrator advances the ball by no
/// time at all: the tentative position and velocity are the stored
/// ones, whatever the tilt.
pub proof fn lemma_first_update_freezes_physics(g: Game, t: u64)
    requires
        g.prev_update is None,
    ensures
        integrate_pv(g, dt_millis(g.prev_update, t)) == (
            g.ball_pos.x as int,
            g.ball_pos.y as int,
            g.ball_v.x as int,
            g.ball_v.y as int,
        ),
{
    vstd::arithmetic::div_mod::lemma_div_of0(1000);
    let ax = muldiv(g.angle_x as int, g.params.accel as int, 1_000_000);
    let ay = muldiv(g.angle_y as int, g.params.accel as int, 1_000_000);
    assert(ax * 0 == 0);
    assert(ay * 0 == 0);
    assert((g.ball_v.x as int) * 0 == 0);
    assert((g.ball_v.y as int) * 0 == 0);
}

/// Pause idempotence: two in-progress games with the same ball state,
/// tilt, level and tuning constants, each with no recorded update time
/// (one fresh, one just reset), compute the same position and velocity
/// at the next update.
pub proof fn lemma_pause_idempotence(g1: Game, g2: Game, t: u64)
    requires
        g1.prev_update is None,
        g2.prev_update is None,
        g1.ball_pos == g2.ball_pos,
        g1.ball_v == g2.ball_v,
        g1.angle_x == g2.angle_x,
        g1.angle_y == g2.angle_y,
        g1.level == g2.level,
        g1.params == g2.params,
    ensures
        step_pv(g1, t) == step_pv(g2, t),
{
    lemma_first_update_freezes_physics(g1, t);
    lemma_first_update_freezes_physics(g2, t);
}

/// A head-on bounce dissipates exactly the configured share of speed:
/// when the velocity points purely along the collision normal (here
/// the x axis), the outgoing velocity is the incoming one inverted and
/// scaled by `bounce` per-mille, exactly:
/// `v_out * 1000 == -(bounce * v_in)`, with no motion appearing on the
/// other axis. Exactness asks that `bounce * v_in` be a whole multiple
/// of 1000; on other inputs the division truncates.
pub proof fn lemma_head_on_bounce(px: int, py: int, vx: int, rsp: Response, bounce: int)
    requires
        rsp.normal_x == 1000 || rsp.normal_x == -1000,
        rsp.normal_y == 0,
        -1_000_000_000_000_000 <= vx <= 1_000_000_000_000_000,
        0 <= bounce <= 1000,
        (bounce * vx) % 1000 == 0,
    ensures
        respond(px, py, vx, 0, rsp, bounce).2 * 1000 == -(bounce * vx),
        respond(px, py, vx, 0, rsp, bounce).3 == 0,
{
    let nx = rsp.normal_x as int;
    let s: int = if rsp.normal_x == 1000 {
        1
    } else {
        -1
    };
    vstd::arithmetic::div_mod::lemma_div_of0(1000);

    // The normal velocity component is the full speed, signed.
    assert(vx * nx == (s * vx) * 1000) by (nonlinear_arith)
        requires
            nx == s * 1000,
    ;
    lemma_tdiv_exact(s * vx, 1000);
    assert(0 * 0 == 0);
    assert(dot_normal(vx, 0, nx, 0) == s * vx);

    // The damping multiple is exact on these inputs.
    let k = (bounce * vx) / 1000;
    vstd::arithmetic::div_mod::lemma_fundamental_div_mod(bounce * vx, 1000);
    assert(bounce * vx == 1000 * k);
    assert(-1_000_000_000_000_000 <= k <= 1_000_000_000_000_000) by (nonlinear_arith)
        requires
            1000 * k == bounce * vx,
            0 <= bounce <= 1000,
            -1_000_000_000_000_000 <= vx <= 1_000_000_000_000_000,
    ;

    // The reflection impulse is `s * (vx + k)` ...
    assert(sadd(1000, bounce) * (s * vx) == (s * (vx + k)) * 1000) by (nonlinear_arith)
        requires
            bounce * vx == 1000 * k,
            sadd(1000, bounce) == 1000 + bounce,
    ;
    lemma_tdiv_exact(s * (vx + k), 1000);

    // ... and applying it along the normal removes `vx + k` from the
    // x velocity, leaving `-k`.
    assert((s * (vx + k)) * nx == (vx + k) * 1000) by (nonlinear_arith)
        requires
            nx == s * 1000,
            s * s == 1,
    ;
    lemma_tdiv_exact(vx + k, 1000);
    assert((s * (vx + k)) * 0 == 0);
    assert(respond(px, py, vx, 0, rsp, bounce).2 == -k);
}

/// The vertical counterpart of `lemma_head_on_bounce`: a head-on
/// bounce along the y axis dissipates exactly the configured share of
/// speed.
pub proof fn lemma_head_on_bounce_y(px: int, py: int, vy: int, rsp: Response, bounce: int)
    requires
        rsp.normal_y == 1000 || rsp.normal_y == -1000,
        rsp.normal_x == 0,
        -1_000_000_000_000_000 <= vy <= 1_000_000_000_000_000,
        0 <= bounce <= 1000,
        (bounce * vy) % 1000 == 0,
    ensures
        respond(px, py, 0, vy, rsp, bounce).3 * 1000 == -(bounce * vy),
        respond(px, py, 0, vy, rsp, bounce).2 == 0,
{
    let ny = rsp.normal_y as int;
    let s: int = if rsp.normal_y == 1000 {
        1
    } else {
        -1
    };
    vstd::arithmetic::div_mod::lemma_div_of0(1000);

    assert(vy * ny == (s * vy) * 1000) by (nonlinear_arith)
        requires
            ny == s * 1000,
    ;
    lemma_tdiv_exact(s * vy, 1000);
    assert(0 * 0 == 0);
    assert(dot_normal(0, vy, 0, ny) == s * vy);

    let k = (bounce * vy) / 1000;
    vstd::arithmetic::div_mod::lemma_fundamental_div_mod(bounce * vy, 1000);
    assert(bounce * vy == 1000 * k);
    assert(-1_000_000_000_000_000 <= k <= 1_000_000_000_000_000) by (nonlinear_arith)
        requires
            1000 * k == bounce * vy,
            0 <= bounce <= 1000,
            -1_000_000_000_000_000 <= vy <= 1_000_000_000_000_000,
    ;

    assert(sadd(1000, bounce) * (s * vy) == (s * (vy + k)) * 1000) by (nonlinear_arith)
        requires
            bounce * vy == 1000 * k,
            sadd(1000, bounce) == 1000 + bounce,
    ;
    lemma_tdiv_exact(s * (vy + k), 1000);

    assert((s * (vy + k)) * ny == (vy + k) * 1000) by (nonlinear_arith)
        requires
            ny == s * 1000,
            s * s == 1,
    ;
    lemma_tdiv_exact(vy + k, 1000);
    assert((s * (vy + k)) * 0 == 0);
    assert(respond(px, py, 0, vy, rsp, bounce).3 == -k);
}

/// From a moderate state (listed bounds, all far inside the
/// fixed-point range) the integrator's tentative position stays well
/// inside the saturation limits.
pub proof fn lemma_integrate_bounds(g: Game, dt: int)
    requires
        g.params.wf(),
        -g.params.max_angle <= g.angle_x <= g.params.max_angle,
        -g.params.max_angle <= g.angle_y <= g.params.max_angle,
        -10_000_000_000_000 <= g.ball_pos.x <= 10_000_000_000_000,
        -10_000_000_000_000 <= g.ball_pos.y <= 10_000_000_000_000,
        -1_000_000_000_000_000 <= g.ball_v.x <= 1_000_000_000_000_000,
        -1_000_000_000_000_000 <= g.ball_v.y <= 1_000_000_000_000_000,
        -1_000_000 <= dt <= 1_000_000,
    ensures
        -2_100_000_000_000_000_000 <= integrate_pv(g, dt).0 <= 2_100_000_000_000_000_000,
        -2_100_000_000_000_000_000 <= integrate_pv(g, dt).1 <= 2_100_000_000_000_000_000,
{
    let ax = g.angle_x as int;
    let ay = g.angle_y as int;
    let accel = g.params.accel as int;
    assert(-1_000_000_000_000_000_000 <= ax * accel <= 1_000_000_000_000_000_000
        && -1_000_000_000_000_000_000 <= ay * accel <= 1_000_000_000_000_000_000)
        by (nonlinear_arith)
        requires
            -10_000_000 <= ax <= 10_000_000,
            -10_000_000 <= ay <= 10_000_000,
            0 <= accel <= 100_000_000_000,
    ;
    lemma_tdiv_bound(ax * accel, 1_000_000, 1_000_000_000_000);
    lemma_tdiv_bound(ay * accel, 1_000_000, 1_000_000_000_000);
    let ex = muldiv(ax, accel, 1_000_000);
    let ey = muldiv(ay, accel, 1_000_000);
    assert(-1_000_000_000_000_000_000 <= ex * dt <= 1_000_000_000_000_000_000
        && -1_000_000_000_000_000_000 <= ey * dt <= 1_000_000_000_000_000_000)
        by (nonlinear_arith)
        requires
            -1_000_000_000_000 <= ex <= 1_000_000_000_000,
            -1_000_000_000_000 <= ey <= 1_000_000_000_000,
            -1_000_000 <= dt <= 1_000_000,
    ;
    lemma_tdiv_bound(ex * dt, 1000, 1_000_000_000_000_000);
    lemma_tdiv_bound(ey * dt, 1000, 1_000_000_000_000_000);
    let vx = sadd(g.ball_v.x as int, muldiv(ex, dt, 1000));
    let vy = sadd(g.ball_v.y as int, muldiv(ey, dt, 1000));
    assert(-2_000_000_000_000_000_000_000 <= vx * dt <= 2_000_000_000_000_000_000_000
        && -2_000_000_000_000_000_000_000 <= vy * dt <= 2_000_000_000_000_000_000_000)
        by (nonlinear_arith)
        requires
            -2_000_000_000_000_000 <= vx <= 2_000_000_000_000_000,
            -2_000_000_000_000_000 <= vy <= 2_000_000_000_000_000,
            -1_000_000 <= dt <= 1_000_000,
    ;
    lemma_tdiv_bound(vx * dt, 1000, 2_000_000_000_000_000_000);
    lemma_tdiv_bound(vy * dt, 1000, 2_000_000_000_000_000_000);
}

/// The edge pass leaves the ball inside the playable band on both
/// axes: at least one radius from every board edge. The position must
/// come in below the saturation limits (the integrator guarantees
/// that, see `lemma_integrate_bounds`), and the board must be wider
/// than the ball on both axes.
pub proof fn lemma_edges_clamp(pv: (int, int, int, int), w: int, h: int, ball_r: int, bounce: int)
    requires
        0 < ball_r <= 1_000_000_000,
        2 * ball_r < w <= 1_000_000_000_000,
        2 * ball_r < h <= 1_000_000_000_000,
        -2_100_000_000_000_000_000 <= pv.0 <= 2_100_000_000_000_000_000,
        -2_100_000_000_000_000_000 <= pv.1 <= 2_100_000_000_000_000_000,
    ensures
        ball_r <= pass_edges(pv, w, h, ball_r, bounce).0 <= w - ball_r,
        ball_r <= pass_edges(pv, w, h, ball_r, bounce).1 <= h - ball_r,
{
    let a = respond_opt(pv.0, pv.1, pv.2, pv.3, left_edge_check(pv.0, ball_r), bounce);
    assert(ball_r <= a.0 <= 2_100_000_000_000_000_000 && a.1 == pv.1);
    let b = respond_opt(a.0, a.1, a.2, a.3, right_edge_check(a.0, w, ball_r), bounce);
    assert(ball_r <= b.0 <= w - ball_r && b.1 == pv.1);
    let c = respond_opt(b.0, b.1, b.2, b.3, top_edge_check(b.1, ball_r), bounce);
    assert(ball_r <= c.1 <= 2_100_000_000_000_000_000 && c.0 == b.0);
    let d = respond_opt(c.0, c.1, c.2, c.3, bottom_edge_check(c.1, h, ball_r), bounce);
    assert(ball_r <= d.1 <= h - ball_r && d.0 == b.0);
}

/// No persistent penetration of a wall hit face-on from the left or
/// right: when the ball centre overlaps a wall sideways (its y within
/// the wall's vertical extent), the wall response pushes it to exactly
/// one radius from the wall, and the contact normal is axis-exact.
pub proof fn lemma_wall_face_separation_x(
    px: int,
    py: int,
    vx: int,
    vy: int,
    wall: Rect,
    ball_r: int,
    bounce: int,
)
    requires
        rect_ok(wall),
        0 < ball_r <= 1_000_000_000,
        -10_000_000_000_000 <= px <= 10_000_000_000_000,
        -10_000_000_000_000 <= py <= 10_000_000_000_000,
        wall.pos.y <= py <= wall.pos.y + wall.size.h,
        (wall.pos.x - ball_r < px < wall.pos.x) || (wall.pos.x + wall.size.w < px < wall.pos.x
            + wall.size.w + ball_r),
    ensures
        wall_check(px, py, wall, ball_r) is Some,
        ({
            let q = respond(px, py, vx, vy, wall_check(px, py, wall, ball_r)->Some_0, bounce);
            let ncx = clamp_val(q.0, wall.pos.x as int, sadd(wall.pos.x as int, wall.size.w as int));
            let ncy = clamp_val(q.1, wall.pos.y as int, sadd(wall.pos.y as int, wall.size.h as int));
            dist2(q.0, q.1, ncx, ncy) == ball_r * ball_r
        }),
{
    let rx = wall.pos.x as int;
    let rw = wall.size.w as int;
    let ry = wall.pos.y as int;
    let rh = wall.size.h as int;
    let cx = clamp_val(px, rx, sadd(rx, rw));
    let cy = clamp_val(py, ry, sadd(ry, rh));
    assert(cy == py);
    let dx = px - cx;
    assert(dx != 0);
    let d2v = dist2(px, py, cx, cy);
    assert(d2v == dx * dx);
    let m = if dx >= 0 {
        dx
    } else {
        -dx
    };
    assert(d2v == m * m && 1 <= m < ball_r && d2v < ball_r * ball_r && d2v < (m + 1) * (m + 1))
        by (nonlinear_arith)
        requires
            d2v == dx * dx,
            m == (if dx >= 0 {
                dx
            } else {
                -dx
            }),
            dx != 0,
            -1_000_000_000 < dx < 1_000_000_000,
            ball_r > (if dx >= 0 {
                dx
            } else {
                -dx
            }),
    ;
    lemma_sqrt_floor_unique(d2v as nat, m as nat);
    let d = sqrt_floor(d2v as nat) as int;
    assert(d == m);

    // The contact normal is exactly one unit, milli-scaled, along x.
    let s: int = if dx >= 0 {
        1
    } else {
        -1
    };
    assert(dx * 1000 == (s * 1000) * d) by (nonlinear_arith)
        requires
            d == (if dx >= 0 {
                dx
            } else {
                -dx
            }),
            s == (if dx >= 0 {
                1int
            } else {
                -1int
            }),
    ;
    lemma_tdiv_exact(s * 1000, d);
    vstd::arithmetic::div_mod::lemma_div_of0(d);
    assert(tdiv((py - cy) * 1000, d) == 0);
    let nx = tdiv(dx * 1000, d);
    assert(nx == s * 1000);

    // The push is exactly the penetration depth, along the normal.
    assert(nx * (ball_r - d) == (s * (ball_r - d)) * 1000) by (nonlinear_arith)
        requires
            nx == s * 1000,
    ;
    lemma_tdiv_exact(s * (ball_r - d), 1000);
    assert(s * (ball_r - d) == (if s == 1 {
        ball_r - d
    } else {
        -(ball_r - d)
    })) by (nonlinear_arith)
        requires
            s == 1 || s == -1,
    ;
    vstd::arithmetic::div_mod::lemma_div_of0(1000);
    assert(0 * (ball_r - d) == 0);

    let rsp = wall_check(px, py, wall, ball_r)->Some_0;
    assert(rsp.push_x as int == s * (ball_r - d) && rsp.push_y == 0);
    let q = respond(px, py, vx, vy, rsp, bounce);
    assert(q.0 == px + s * (ball_r - d) && q.1 == py);

    // On either side the pushed centre ends exactly one radius out.
    if dx >= 0 {
        assert(q.0 == rx + rw + ball_r);
        assert(clamp_val(q.0, rx, sadd(rx, rw)) == rx + rw);
        assert((q.0 - (rx + rw)) * (q.0 - (rx + rw)) == ball_r * ball_r) by (nonlinear_arith)
            requires
                q.0 - (rx + rw) == ball_r,
        ;
    } else {
        assert(q.0 == rx - ball_r);
        assert(clamp_val(q.0, rx, sadd(rx, rw)) == rx);
        assert((q.0 - rx) * (q.0 - rx) == ball_r * ball_r) by (nonlinear_arith)
            requires
                rx - q.0 == ball_r,
        ;
    }
}

/// No persistent penetration of a wall hit face-on from above or
/// below: the vertical counterpart of `lemma_wall_face_separation_x`.
pub proof fn lemma_wall_face_separation_y(
    px: int,
    py: int,
    vx: int,
    vy: int,
    wall: Rect,
    ball_r: int,
    bounce: int,
)
    requires
        rect_ok(wall),
        0 < ball_r <= 1_000_000_000,
        -10_000_000_000_000 <= px <= 10_000_000_000_000,
        -10_000_000_000_000 <= py <= 10_000_000_000_000,
        wall.pos.x <= px <= wall.pos.x + wall.size.w,
        (wall.pos.y - ball_r < py < wall.pos.y) || (wall.pos.y + wall.size.h < py < wall.pos.y
            + wall.size.h + ball_r),
    ensures
        wall_check(px, py, wall, ball_r) is Some,
        ({
            let q = respond(px, py, vx, vy, wall_check(px, py, wall, ball_r)->Some_0, bounce);
            let ncx = clamp_val(q.0, wall.pos.x as int, sadd(wall.pos.x as int, wall.size.w as int));
            let ncy = clamp_val(q.1, wall.pos.y as int, sadd(wall.pos.y as int, wall.size.h as int));
            dist2(q.0, q.1, ncx, ncy) == ball_r * ball_r
        }),
{
    let rx = wall.pos.x as int;
    let rw = wall.size.w as int;
    let ry = wall.pos.y as int;
    let rh = wall.size.h as int;
    let cx = clamp_val(px, rx, sadd(rx, rw));
    let cy = clamp_val(py, ry, sadd(ry, rh));
    assert(cx == px);
    let dy = py - cy;
    assert(dy != 0);
    let d2v = dist2(px, py, cx, cy);
    assert(d2v == dy * dy) by (nonlinear_arith)
        requires
            d2v == (px - cx) * (px - cx) + (py - cy) * (py - cy),
            px == cx,
            dy == py - cy,
    ;
    let m = if dy >= 0 {
        dy
    } else {
        -dy
    };
    assert(d2v == m * m && 1 <= m < ball_r && d2v < ball_r * ball_r && d2v < (m + 1) * (m + 1))
        by (nonlinear_arith)
        requires
            d2v == dy * dy,
            m == (if dy >= 0 {
                dy
            } else {
                -dy
            }),
            dy != 0,
            -1_000_000_000 < dy < 1_000_000_000,
            ball_r > (if dy >= 0 {
                dy
            } else {
                -dy
            }),
    ;
    lemma_sqrt_floor_unique(d2v as nat, m as nat);
    let d = sqrt_floor(d2v as nat) as int;
    assert(d == m);

    // The contact normal is exactly one unit, milli-scaled, along y.
    let s: int = if dy >= 0 {
        1
    } else {
        -1
    };
    assert(dy * 1000 == (s * 1000) * d) by (nonlinear_arith)
        requires
            d == (if dy >= 0 {
                dy
            } else {
                -dy
            }),
            s == (if dy >= 0 {
                1int
            } else {
                -1int
            }),
    ;
    lemma_tdiv_exact(s * 1000, d);
    vstd::arithmetic::div_mod::lemma_div_of0(d);
    assert(tdiv((px - cx) * 1000, d) == 0);
    let ny = tdiv(dy * 1000, d);
    assert(ny == s * 1000);

    // The push is exactly the penetration depth, along the normal.
    assert(ny * (ball_r - d) == (s * (ball_r - d)) * 1000) by (nonlinear_arith)
        requires
            ny == s * 1000,
    ;
    lemma_tdiv_exact(s * (ball_r - d), 1000);
    assert(s * (ball_r - d) == (if s == 1 {
        ball_r - d
    } else {
        -(ball_r - d)
    })) by (nonlinear_arith)
        requires
            s == 1 || s == -1,
    ;
    vstd::arithmetic::div_mod::lemma_div_of0(1000);
    assert(0 * (ball_r - d) == 0);

    let rsp = wall_check(px, py, wall, ball_r)->Some_0;
    assert(rsp.push_y as int == s * (ball_r - d) && rsp.push_x == 0);
    let q = respond(px, py, vx, vy, rsp, bounce);
    assert(q.1 == py + s * (ball_r - d) && q.0 == px);

    // On either side the pushed centre ends exactly one radius out.
    if dy >= 0 {
        assert(q.1 == ry + rh + ball_r);
        assert(clamp_val(q.1, ry, sadd(ry, rh)) == ry + rh);
        assert((q.1 - (ry + rh)) * (q.1 - (ry + rh)) == ball_r * ball_r) by (nonlinear_arith)
            requires
                q.1 - (ry + rh) == ball_r,
        ;
    } else {
        assert(q.1 == ry - ball_r);
        assert(clamp_val(q.1, ry, sadd(ry, rh)) == ry);
        assert((q.1 - ry) * (q.1 - ry) == ball_r * ball_r) by (nonlinear_arith)
            requires
                ry - q.1 == ball_r,
        ;
    }
}

/// A wall pass over walls that the ball does not touch changes
/// nothing: when every wall check at the incoming position reports no
/// collision, the fold is the identity.
pub proof fn lemma_pass_walls_untouched(
    walls: Seq<Rect>,
    pv: (int, int, int, int),
    ball_r: int,
    bounce: int,
)
    requires
        forall|i: int| 0 <= i < walls.len() ==> wall_check(pv.0, pv.1, #[trigger] walls[i], ball_r)
            is None,
    ensures
        pass_walls(walls, pv, ball_r, bounce) == pv,
    decreases walls.len(),
{
    if walls.len() > 0 {
        assert(wall_check(pv.0, pv.1, walls[0], ball_r) is None);
        assert(forall|i: int| 0 <= i < walls.drop_first().len() ==> #[trigger] walls.drop_first()[i]
            == walls[i + 1]);
        lemma_pass_walls_untouched(walls.drop_first(), pv, ball_r, bounce);
    }
}

/// No persistent penetration of the board edges: one update of an
/// in-progress game on a wall-free level leaves the ball centre inside
/// `[ball_r, w - ball_r] x [ball_r, h - ball_r]`, whatever the tilt.
/// The game state must be moderate (the listed bounds, far inside the
/// fixed-point range) and the frame gap at most a thousand seconds.
pub proof fn lemma_update_in_bounds(g: Game, t: u64)
    requires
        g.params.wf(),
        g.level.wf(),
        g.level.walls@.len() == 0,
        2 * g.params.ball_r < g.level.size.w,
        2 * g.params.ball_r < g.level.size.h,
        -g.params.max_angle <= g.angle_x <= g.params.max_angle,
        -g.params.max_angle <= g.angle_y <= g.params.max_angle,
        -10_000_000_000_000 <= g.ball_pos.x <= 10_000_000_000_000,
        -10_000_000_000_000 <= g.ball_pos.y <= 10_000_000_000_000,
        -1_000_000_000_000_000 <= g.ball_v.x <= 1_000_000_000_000_000,
        -1_000_000_000_000_000 <= g.ball_v.y <= 1_000_000_000_000_000,
        g.prev_update matches Some(t0) ==> t0 <= t,
        dt_millis(g.prev_update, t) <= 1_000_000,
    ensures
        g.params.ball_r <= step_pv(g, t).0 <= g.level.size.w - g.params.ball_r,
        g.params.ball_r <= step_pv(g, t).1 <= g.level.size.h - g.params.ball_r,
{
    let dt = dt_millis(g.prev_update, t);
    lemma_integrate_bounds(g, dt);
    let pv = integrate_pv(g, dt);
    lemma_edges_clamp(
        pv,
        g.level.size.w as int,
        g.level.size.h as int,
        g.params.ball_r as int,
        g.params.bounce as int,
    );
}

/// `lemma_update_in_bounds` extended to levels with walls, as long as
/// no wall collides with the edge-resolved position of this frame:
/// the wall pass then changes nothing, and the edge clamp's bounds
/// carry through to the stored position.
pub proof fn lemma_update_in_bounds_clear_walls(g: Game, t: u64)
    requires
        g.params.wf(),
        g.level.wf(),
        2 * g.params.ball_r < g.level.size.w,
        2 * g.params.ball_r < g.level.size.h,
        -g.params.max_angle <= g.angle_x <= g.params.max_angle,
        -g.params.max_angle <= g.angle_y <= g.params.max_angle,
        -10_000_000_000_000 <= g.ball_pos.x <= 10_000_000_000_000,
        -10_000_000_000_000 <= g.ball_pos.y <= 10_000_000_000_000,
        -1_000_000_000_000_000 <= g.ball_v.x <= 1_000_000_000_000_000,
        -1_000_000_000_000_000 <= g.ball_v.y <= 1_000_000_000_000_000,
        g.prev_update matches Some(t0) ==> t0 <= t,
        dt_millis(g.prev_update, t) <= 1_000_000,
        ({
            let after_edges = pass_edges(
                integrate_pv(g, dt_millis(g.prev_update, t)),
                g.level.size.w as int,
                g.level.size.h as int,
                g.params.ball_r as int,
                g.params.bounce as int,
            );
            forall|i: int| 0 <= i < g.level.walls@.len() ==> wall_check(
                after_edges.0,
                after_edges.1,
                #[trigger] g.level.walls@[i],
                g.params.ball_r as int,
            ) is None
        }),
    ensures
        g.params.ball_r <= step_pv(g, t).0 <= g.level.size.w - g.params.ball_r,
        g.params.ball_r <= step_pv(g, t).1 <= g.level.size.h - g.params.ball_r,
{
    let dt = dt_millis(g.prev_update, t);
    lemma_integrate_bounds(g, dt);
    let pv = integrate_pv(g, dt);
    lemma_edges_clamp(
        pv,
        g.level.size.w as int,
        g.level.size.h as int,
        g.params.ball_r as int,
        g.params.bounce as int,
    );
    let after_edges = pass_edges(
        pv,
        g.level.size.w as int,
        g.level.size.h as int,
        g.params.ball_r as int,
        g.params.bounce as int,
    );
    lemma_pass_walls_untouched(
        g.level.walls@,
        after_edges,
        g.params.ball_r as int,
        g.params.bounce as int,
    );
}

} // verus!
