//! The lost-state animation: a pure function giving the ball's
//! position and height while it rolls over a hole's rim and falls in.
//!
//! The driving loop calls it with the time elapsed since the loss; the
//! game state itself stays frozen (see `Game::update`).

use vstd::prelude::*;

use crate::fixed::{cap_u128, clip, muldiv, sadd, sqrt_floor, ssub, tdiv};
use crate::fixed::{isqrt_u128, lemma_sqrt_floor_bounds, lemma_sqrt_floor_unique, lemma_tdiv_bound, mul_div, sat_add, sat_sub};
use crate::game::Params;
use crate::geom::{dist2, dist2_capped, Point};

verus! {

/// How long the ball rolls over the rim, milliseconds.
pub const ROLL_OVER_MS: i64 = 100;

/// How long the free fall below the rim lasts, milliseconds.
pub const FREE_FALL_MS: i64 = 100;

/// Where the animation ends, milliseconds after the loss.
pub const TOTAL_FALL_MS: i64 = 200;

/// A sample of the fall animation: board-plane position plus the height
/// of the ball centre over the board surface (negative once it has
/// dropped below), all in milli-units.
#[derive(Clone, Copy, PartialEq, Eq, Structural, Debug)]
pub struct FallPos {
    pub x: i64,
    pub y: i64,
    pub height: i64,
}

/// The milli-scaled x component of the unit vector from the hole centre
/// towards the ball's resting point; zero when the two coincide.
pub open spec fn fall_dir_x(bx: int, by: int, hx: int, hy: int) -> int {
    let len = sqrt_floor(cap_u128(dist2(bx, by, hx, hy)) as nat) as int;
    if len == 0 {
        0
    } else {
        tdiv((bx - hx) * 1000, len)
    }
}

/// The milli-scaled y component of the same unit vector.
pub open spec fn fall_dir_y(bx: int, by: int, hx: int, hy: int) -> int {
    let len = sqrt_floor(cap_u128(dist2(bx, by, hx, hy)) as nat) as int;
    if len == 0 {
        0
    } else {
        tdiv((by - hy) * 1000, len)
    }
}

/// The x of the point where the ball has fully crossed the hole's rim:
/// the hole centre pushed towards the resting point by the rim margin
/// `hole_r - ball_r`.
pub open spec fn free_fall_x(bx: int, by: int, hx: int, hy: int, ball_r: int, hole_r: int) -> int {
    sadd(hx, muldiv(fall_dir_x(bx, by, hx, hy), ssub(hole_r, ball_r), 1000))
}

/// The y of the point where the ball has fully crossed the hole's rim.
pub open spec fn free_fall_y(bx: int, by: int, hx: int, hy: int, ball_r: int, hole_r: int) -> int {
    sadd(hy, muldiv(fall_dir_y(bx, by, hx, hy), ssub(hole_r, ball_r), 1000))
}

/// The distance from `(ax, ay)` to `(bx, by)`, saturated into `i64`.
pub open spec fn dist_sat(ax: int, ay: int, bx: int, by: int) -> int {
    clip(sqrt_floor(cap_u128(dist2(ax, ay, bx, by)) as nat) as int)
}

/// The height of a ball of radius `ball_r` resting on the rim of a hole
/// of radius `hole_r` when its centre is `dist` from the hole centre:
/// the sphere-over-rim geometry `sqrt(ball_r^2 - (hole_r - dist)^2)`,
/// and zero where that square would be negative.
pub open spec fn rim_height(ball_r: int, hole_r: int, dist: int) -> int {
    let ds = ssub(hole_r, dist);
    let h2 = ball_r * ball_r - ds * ds;
    if h2 <= 0 {
        0
    } else {
        clip(sqrt_floor(h2 as nat) as int)
    }
}

/// The ball's place `t` milliseconds after a loss, with the ball last
/// seen at `ball0` and the hole centred at `hole`:
/// - while `t < ROLL_OVER_MS`, the ball slides linearly from `ball0`
///   towards the rim-crossing point, its height following the rim
///   geometry;
/// - then until `TOTAL_FALL_MS`, it stays at the rim-crossing point
///   while its height drops linearly to three ball radii below;
/// - afterwards the animation is over (`None`).
pub open spec fn fall_at(params: Params, t: int, ball0: Point, hole: Point) -> Option<FallPos> {
    let bx = ball0.x as int;
    let by = ball0.y as int;
    let hx = hole.x as int;
    let hy = hole.y as int;
    let ball_r = params.ball_r as int;
    let hole_r = params.hole_r as int;
    let fx = free_fall_x(bx, by, hx, hy, ball_r, hole_r);
    let fy = free_fall_y(bx, by, hx, hy, ball_r, hole_r);
    if t < ROLL_OVER_MS {
        let x = sadd(bx, muldiv(ssub(fx, bx), t, ROLL_OVER_MS as int));
        let y = sadd(by, muldiv(ssub(fy, by), t, ROLL_OVER_MS as int));
        Some(
            FallPos {
                x: x as i64,
                y: y as i64,
                height: rim_height(ball_r, hole_r, dist_sat(hx, hy, x, y)) as i64,
            },
        )
    } else if t < TOTAL_FALL_MS {
        let depth = muldiv(3, ball_r, 1);
        Some(
            FallPos {
                x: fx as i64,
                y: fy as i64,
                height: ssub(0, muldiv(ssub(t, ROLL_OVER_MS as int), depth, FREE_FALL_MS as int)) as i64,
            },
        )
    } else {
        None
    }
}

/// The milli-scaled unit vector from `hole` towards `ball0`, and their
/// distance; the vector is zero when the points coincide.
fn fall_direction(ball0: Point, hole: Point) -> (r: (i64, i64, u64))
    ensures
        r.0 as int == fall_dir_x(ball0.x as int, ball0.y as int, hole.x as int, hole.y as int),
        r.1 as int == fall_dir_y(ball0.x as int, ball0.y as int, hole.x as int, hole.y as int),
        r.2 as nat == sqrt_floor(
            cap_u128(dist2(ball0.x as int, ball0.y as int, hole.x as int, hole.y as int)) as nat,
        ),
        -1000 <= r.0 <= 1000,
        -1000 <= r.1 <= 1000,
{
    let ghost bx = ball0.x as int;
    let ghost by = ball0.y as int;
    let ghost hx = hole.x as int;
    let ghost hy = hole.y as int;
    let d2c: u128 = dist2_capped(ball0, hole);
    let len: u64 = isqrt_u128(d2c);
    if len == 0 {
        return (0, 0, 0);
    }
    let dx: i128 = ball0.x as i128 - hole.x as i128;
    let dy: i128 = ball0.y as i128 - hole.y as i128;
    proof {
        let d2 = dist2(bx, by, hx, hy);
        assert((bx - hx) * (bx - hx) >= 0 && (by - hy) * (by - hy) >= 0 && (bx - hx) * (bx - hx)
            <= d2 && (by - hy) * (by - hy) <= d2) by (nonlinear_arith)
            requires
                d2 == (bx - hx) * (bx - hx) + (by - hy) * (by - hy),
        ;
        lemma_sqrt_floor_bounds(d2c as nat);
        if d2 > u128::MAX as int {
            // The squared distance saturated; the root of the saturated
            // value is still at least as large as either coordinate gap.
            assert((0xffff_ffff_ffff_ffffint) * (0xffff_ffff_ffff_ffffint) <= u128::MAX as int
                && (u128::MAX as int) < (0xffff_ffff_ffff_ffffint + 1) * (0xffff_ffff_ffff_ffffint
                + 1)) by (nonlinear_arith);
            lemma_sqrt_floor_unique(u128::MAX as nat, 0xffff_ffff_ffff_ffff as nat);
            assert(-(len as int) <= dx as int <= len as int && -(len as int) <= dy as int
                <= len as int);
        } else {
            assert(-(len as int) <= dx as int <= len as int && -(len as int) <= dy as int
                <= len as int) by (nonlinear_arith)
                requires
                    (dx as int) * (dx as int) <= d2c as int,
                    (dy as int) * (dy as int) <= d2c as int,
                    (d2c as int) < (len as int + 1) * (len as int + 1),
                    (len as int) * (len as int) <= d2c as int,
                    len as int >= 0,
            ;
        }
        lemma_tdiv_bound((dx as int) * 1000, len as int, 1000);
        lemma_tdiv_bound((dy as int) * 1000, len as int, 1000);
        assert(-(1000 * (len as int)) <= (dx as int) * 1000 <= 1000 * (len as int) && -(1000 * (
        len as int)) <= (dy as int) * 1000 <= 1000 * (len as int)) by (nonlinear_arith)
            requires
                -(len as int) <= dx as int <= len as int,
                -(len as int) <= dy as int <= len as int,
        ;
    }
    let nx: i64 = ((dx * 1000) / (len as i128)) as i64;
    let ny: i64 = ((dy * 1000) / (len as i128)) as i64;
    (nx, ny, len)
}

/// The ball's animated place `t` milliseconds after the game was lost
/// at `ball0` over the hole at `hole`; `None` once the animation is
/// done and the ball should be hidden.
pub fn animate_fall(params: &Params, t: i64, ball0: Point, hole: Point) -> (r: Option<FallPos>)
    ensures
        r == fall_at(*params, t as int, ball0, hole),
{
    let ghost bx = ball0.x as int;
    let ghost by = ball0.y as int;
    let ghost hx = hole.x as int;
    let ghost hy = hole.y as int;
    if t >= TOTAL_FALL_MS {
        return None;
    }
    let dir = fall_direction(ball0, hole);
    let margin: i64 = sat_sub(params.hole_r, params.ball_r);
    let fx: i64 = sat_add(hole.x, mul_div(dir.0, margin, 1000));
    let fy: i64 = sat_add(hole.y, mul_div(dir.1, margin, 1000));
    if t < ROLL_OVER_MS {
        let x: i64 = sat_add(ball0.x, mul_div(sat_sub(fx, ball0.x), t, ROLL_OVER_MS));
        let y: i64 = sat_add(ball0.y, mul_div(sat_sub(fy, ball0.y), t, ROLL_OVER_MS));
        let du: u64 = isqrt_u128(dist2_capped(hole, Point { x, y }));
        let dist: i64 = if du > i64::MAX as u64 {
            i64::MAX
        } else {
            du as i64
        };
        let ds: i64 = sat_sub(params.hole_r, dist);
        proof {
            assert((params.ball_r as int) * (params.ball_r as int)
                <= 0x4000_0000_0000_0000_0000_0000_0000_0000int && (ds as int) * (ds as int)
                <= 0x4000_0000_0000_0000_0000_0000_0000_0000int && (ds as int) * (ds as int) >= 0
                && (params.ball_r as int) * (params.ball_r as int) >= 0) by (nonlinear_arith)
                requires
                    -0x8000_0000_0000_0000int <= params.ball_r as int <= 0x7fff_ffff_ffff_ffffint,
                    -0x8000_0000_0000_0000int <= ds as int <= 0x7fff_ffff_ffff_ffffint,
            ;
        }
        let h2: i128 = (params.ball_r as i128) * (params.ball_r as i128) - (ds as i128) * (
        ds as i128);
        let height: i64 = if h2 <= 0 {
            0
        } else {
            let hu: u64 = isqrt_u128(h2 as u128);
            if hu > i64::MAX as u64 {
                i64::MAX
            } else {
                hu as i64
            }
        };
        Some(FallPos { x, y, height })
    } else {
        let depth: i64 = mul_div(3, params.ball_r, 1);
        let height: i64 = sat_sub(0, mul_div(sat_sub(t, ROLL_OVER_MS), depth, FREE_FALL_MS));
        Some(FallPos { x: fx, y: fy, height })
    }
}

} // verus!
