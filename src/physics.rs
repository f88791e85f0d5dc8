//! Fixed-point physics of the ball.
//!
//! Lengths are measured in micro-pixels and times in microseconds, so that
//! one pixel is `UNITS_PER_PIXEL` units and one second is `MICROS_PER_SECOND`
//! microseconds. Velocities are micro-pixels per second.

use vstd::prelude::*;

verus! {

/// Micro-pixels in one pixel.
pub const UNITS_PER_PIXEL: i64 = 1_000_000;

/// Microseconds in one second.
pub const MICROS_PER_SECOND: i64 = 1_000_000;

/// The integer quotient of `a` by a positive `d`, rounded toward zero.
pub open spec fn trunc_div(a: int, d: int) -> int {
    if a >= 0 {
        a / d
    } else {
        -((-a) / d)
    }
}

/// Divides `a` by a positive `d`, rounding toward zero.
pub fn div_toward_zero(a: i64, d: i64) -> (q: i64)
    requires
        d > 0,
        a > i64::MIN,
    ensures
        q == trunc_div(a as int, d as int),
{
    if a >= 0 {
        a / d
    } else {
        -((-a) / d)
    }
}


/// Gravity, in micro-pixels per second gained per microsecond (500 px/s²).
pub const GRAVITY: i64 = 500;

/// The longest time that one integration step advances by (two seconds).
/// Beyond it the air-resistance factor `1 − 0.5·Δt` would turn negative.
pub const MAX_STEP_MICROS: i64 = 2_000_000;

/// The largest speed, per axis, that a well-formed ball may have (a million
/// pixels per second).
pub const SPEED_LIMIT: i64 = 1_000_000_000_000;

/// The largest magnitude of a ball coordinate.
pub const COORD_LIMIT: i64 = 4_000_000_000_000_000;

/// The largest arena dimension and ball radius (two billion pixels).
pub const SIZE_LIMIT: i64 = 2_000_000_000_000_000;

/// The ball: centre, velocity, radius, and whether the pointer holds it.
pub struct Ball {
    pub x: i64,
    pub y: i64,
    pub vx: i64,
    pub vy: i64,
    pub radius: i64,
    pub dragged: bool,
}

/// The rectangle `[0, width] × [0, height]` that the ball bounces in.
pub struct Arena {
    pub width: i64,
    pub height: i64,
}

impl Ball {
    /// The ball's values stay in the range in which every step is exact.
    pub open spec fn wf(&self) -> bool {
        &&& 0 < self.radius <= SIZE_LIMIT
        &&& -COORD_LIMIT <= self.x <= COORD_LIMIT
        &&& -COORD_LIMIT <= self.y <= COORD_LIMIT
        &&& -SPEED_LIMIT <= self.vx <= SPEED_LIMIT
        &&& -SPEED_LIMIT <= self.vy <= SPEED_LIMIT
    }
}

impl Arena {
    /// Both dimensions are positive and within `SIZE_LIMIT`.
    pub open spec fn wf(&self) -> bool {
        &&& 0 < self.width <= SIZE_LIMIT
        &&& 0 < self.height <= SIZE_LIMIT
    }
}

/// The time that one step integrates over: the elapsed time, capped.
pub open spec fn step_micros(elapsed: int) -> int {
    if elapsed <= MAX_STEP_MICROS {
        elapsed
    } else {
        MAX_STEP_MICROS as int
    }
}

/// Position after moving at velocity `v` for `dt` microseconds.
pub open spec fn advance(p: int, v: int, dt: int) -> int {
    p + trunc_div(v * dt, MICROS_PER_SECOND as int)
}

/// Velocity after a bounce: reversed and scaled by 0.8.
pub open spec fn restitute(v: int) -> int {
    trunc_div(v * -4, 5)
}

/// Velocity after `dt` microseconds of air resistance: scaled by `1 − 0.5·Δt`.
pub open spec fn damp(v: int, dt: int) -> int {
    trunc_div(v * (2 * MICROS_PER_SECOND - dt), 2 * MICROS_PER_SECOND as int)
}

/// Position and velocity after meeting the walls at `r` and `extent − r`:
/// a coordinate beyond a wall is put on it and the velocity bounces.
pub open spec fn bounce(p: int, v: int, r: int, extent: int) -> (int, int) {
    if p < r {
        (r, restitute(v))
    } else if p > extent - r {
        (extent - r, restitute(v))
    } else {
        (p, v)
    }
}

/// One step along one axis: `gain` is added to the velocity, the position
/// moves, the walls are met, and air resistance is applied.
pub open spec fn axis_step(p: int, v: int, gain: int, dt: int, r: int, extent: int) -> (int, int) {
    let v1 = v + gain;
    let hit = bounce(advance(p, v1, dt), v1, r, extent);
    (hit.0, damp(hit.1, dt))
}

/// Horizontal position and velocity after a step of `dt` microseconds.
pub open spec fn horizontal(b: Ball, dt: int, arena: Arena) -> (int, int) {
    axis_step(b.x as int, b.vx as int, 0, dt, b.radius as int, arena.width as int)
}

/// Vertical position and velocity after a step of `dt` microseconds.
pub open spec fn vertical(b: Ball, dt: int, arena: Arena) -> (int, int) {
    axis_step(b.y as int, b.vy as int, GRAVITY * dt, dt, b.radius as int, arena.height as int)
}


pub open spec fn abs(a: int) -> int {
    if a >= 0 {
        a
    } else {
        -a
    }
}

/// Rounding toward zero never makes a quotient larger in magnitude.
proof fn lemma_trunc_div_abs(a: int, d: int)
    requires
        d > 0,
    ensures
        abs(trunc_div(a, d)) * d <= abs(a),
        trunc_div(a, d) >= 0 <==> a >= 0 || -a < d,
{
    assert(abs(a) / d * d <= abs(a)) by (nonlinear_arith)
        requires
            d > 0,
            abs(a) >= 0,
    ;
    if a < 0 {
        assert((-a) / d >= 0 && ((-a) / d == 0 <==> -a < d)) by (nonlinear_arith)
            requires
                d > 0,
                a < 0,
        ;
    }
    assert(a >= 0 ==> a / d >= 0) by (nonlinear_arith)
        requires
            d > 0,
    ;
}

/// A quotient of a bounded dividend is bounded.
proof fn lemma_trunc_div_bound(a: int, d: int, m: int)
    requires
        d > 0,
        abs(a) <= m * d,
    ensures
        abs(trunc_div(a, d)) <= m,
{
    lemma_trunc_div_abs(a, d);
    let q = abs(trunc_div(a, d));
    assert(q <= m) by (nonlinear_arith)
        requires
            q * d <= m * d,
            d > 0,
    ;
}

/// Air resistance over at most two seconds never speeds the ball up.
proof fn lemma_damp_bound(w: int, dt: int, m: int)
    requires
        abs(w) <= m,
        0 <= dt <= MAX_STEP_MICROS,
    ensures
        abs(damp(w, dt)) * (2 * MICROS_PER_SECOND) <= m * (2 * MICROS_PER_SECOND - dt),
{
    let f = 2 * MICROS_PER_SECOND - dt;
    lemma_trunc_div_abs(w * f, 2 * MICROS_PER_SECOND as int);
    assert(abs(w * f) <= m * f) by (nonlinear_arith)
        requires
            abs(w) <= m,
            f >= 0,
    ;
}

/// A bounce never speeds the ball up.
proof fn lemma_restitute_bound(v: int)
    ensures
        abs(restitute(v)) <= abs(v),
{
    lemma_trunc_div_abs(v * -4, 5);
}

/// The speed limit survives gravity followed by air resistance.
proof fn lemma_speed_kept(v: int, gain: int, dt: int)
    requires
        abs(v) <= SPEED_LIMIT,
        0 <= dt <= MAX_STEP_MICROS,
        0 <= gain <= GRAVITY * dt,
    ensures
        abs(damp(restitute(v + gain), dt)) <= SPEED_LIMIT,
        abs(damp(v + gain, dt)) <= SPEED_LIMIT,
{
    let m = SPEED_LIMIT + GRAVITY * dt;
    lemma_restitute_bound(v + gain);
    lemma_damp_bound(restitute(v + gain), dt, m);
    lemma_damp_bound(v + gain, dt, m);
    let f = 2 * MICROS_PER_SECOND - dt;
    assert(m * f <= SPEED_LIMIT * (2 * MICROS_PER_SECOND)) by (nonlinear_arith)
        requires
            m == SPEED_LIMIT + GRAVITY * dt,
            f == 2 * MICROS_PER_SECOND - dt,
            0 <= dt <= MAX_STEP_MICROS,
    ;
}

/// One step along one axis; see `axis_step`.
fn step_axis(p: i64, v: i64, gain: i64, dt: i64, r: i64, extent: i64) -> (res: (i64, i64))
    requires
        -COORD_LIMIT <= p <= COORD_LIMIT,
        -SPEED_LIMIT <= v <= SPEED_LIMIT,
        0 <= dt <= MAX_STEP_MICROS,
        0 <= gain <= GRAVITY * dt,
        0 < r <= SIZE_LIMIT,
        0 < extent <= SIZE_LIMIT,
    ensures
        res.0 == axis_step(p as int, v as int, gain as int, dt as int, r as int, extent as int).0,
        res.1 == axis_step(p as int, v as int, gain as int, dt as int, r as int, extent as int).1,
        -COORD_LIMIT <= res.0 <= COORD_LIMIT,
        -SPEED_LIMIT <= res.1 <= SPEED_LIMIT,
{
    let v1 = v + gain;
    let ghost m: int = SPEED_LIMIT + GRAVITY * MAX_STEP_MICROS;
    assert(-2 * m * MICROS_PER_SECOND <= v1 * dt <= 2 * m * MICROS_PER_SECOND) by (nonlinear_arith)
        requires
            -m <= v1 <= m,
            0 <= dt <= MAX_STEP_MICROS,
            m == SPEED_LIMIT + GRAVITY * MAX_STEP_MICROS,
    ;
    let shift = div_toward_zero(v1 * dt, MICROS_PER_SECOND);
    proof {
        lemma_trunc_div_bound(v1 * dt, MICROS_PER_SECOND as int, 2 * m);
        lemma_speed_kept(v as int, gain as int, dt as int);
        lemma_restitute_bound(v1 as int);
    }
    let p1 = p + shift;
    let hit: (i64, i64) = if p1 < r {
        (r, div_toward_zero(v1 * -4, 5))
    } else if p1 > extent - r {
        (extent - r, div_toward_zero(v1 * -4, 5))
    } else {
        (p1, v1)
    };
    let f = 2 * MICROS_PER_SECOND - dt;
    assert(-m * (2 * MICROS_PER_SECOND) <= hit.1 * f <= m * (2 * MICROS_PER_SECOND)) by (nonlinear_arith)
        requires
            -m <= hit.1 <= m,
            0 <= f <= 2 * MICROS_PER_SECOND,
            m > 0,
    ;
    let v2 = div_toward_zero(hit.1 * f, 2 * MICROS_PER_SECOND);
    (hit.0, v2)
}


impl Ball {
    /// A ball at rest at `(x, y)`, not held by the pointer.
    pub fn new(x: i64, y: i64, radius: i64) -> (b: Ball)
        ensures
            b.x == x && b.y == y && b.radius == radius,
            b.vx == 0 && b.vy == 0,
            !b.dragged,
            0 < radius <= SIZE_LIMIT && -COORD_LIMIT <= x <= COORD_LIMIT && -COORD_LIMIT <= y
                <= COORD_LIMIT ==> b.wf(),
    {
        Ball { x, y, vx: 0, vy: 0, radius, dragged: false }
    }

    /// A ball at rest at the centre of `arena`.
    pub fn centered(arena: &Arena, radius: i64) -> (b: Ball)
        requires
            arena.wf(),
            0 < radius <= SIZE_LIMIT,
        ensures
            b.x == arena.width / 2 && b.y == arena.height / 2 && b.radius == radius,
            b.vx == 0 && b.vy == 0,
            !b.dragged,
            b.wf(),
    {
        Ball::new(arena.width / 2, arena.height / 2, radius)
    }

    /// Advances a free ball by the elapsed time (capped at two seconds):
    /// gravity, motion, bounces off the arena's walls, and air resistance.
    /// A dragged ball is left as it is.
    pub fn integrate(&mut self, elapsed_micros: u64, arena: &Arena)
        requires
            old(self).wf(),
            arena.wf(),
        ensures
            final(self).wf(),
            old(self).dragged ==> *final(self) == *old(self),
            !old(self).dragged ==> {
                let dt = step_micros(elapsed_micros as int);
                &&& final(self).x == horizontal(*old(self), dt, *arena).0
                &&& final(self).vx == horizontal(*old(self), dt, *arena).1
                &&& final(self).y == vertical(*old(self), dt, *arena).0
                &&& final(self).vy == vertical(*old(self), dt, *arena).1
                &&& final(self).radius == old(self).radius
                &&& !final(self).dragged
            },
            !old(self).dragged && 2 * old(self).radius <= arena.width ==> old(self).radius
                <= final(self).x <= arena.width - old(self).radius,
            !old(self).dragged && 2 * old(self).radius <= arena.height ==> old(self).radius
                <= final(self).y <= arena.height - old(self).radius,
    {
        if self.dragged {
            return ;
        }
        let dt: i64 = if elapsed_micros <= MAX_STEP_MICROS as u64 {
            elapsed_micros as i64
        } else {
            MAX_STEP_MICROS
        };
        let (x, vx) = step_axis(self.x, self.vx, 0, dt, self.radius, arena.width);
        let (y, vy) = step_axis(self.y, self.vy, GRAVITY * dt, dt, self.radius, arena.height);
        self.x = x;
        self.vx = vx;
        self.y = y;
        self.vy = vy;
    }
}


/// Gravity acts on every free step: over `dt` microseconds (at most two
/// seconds) the vertical velocity first gains `500 px/s² · Δt`, and that
/// velocity is what moves the ball, bounces and is damped. Where no wall is
/// met, the new velocity is that sum, damped.
pub proof fn law_gravity(b: Ball, dt: int, arena: Arena)
    requires
        b.wf(),
        arena.wf(),
        0 <= dt <= MAX_STEP_MICROS,
    ensures
        ({
            let v1 = b.vy + GRAVITY * dt;
            let y1 = advance(b.y as int, v1, dt);
            &&& vertical(b, dt, arena) == (
                bounce(y1, v1, b.radius as int, arena.height as int).0,
                damp(bounce(y1, v1, b.radius as int, arena.height as int).1, dt),
            )
            &&& b.radius <= y1 <= arena.height - b.radius ==> vertical(b, dt, arena) == (
                y1,
                damp(v1, dt),
            )
        }),
{
}

/// A ball that would pass the right wall is put exactly on it, at
/// `width − radius`, and its horizontal velocity is reversed and scaled by
/// 0.8 before air resistance applies (for an arena at least a diameter wide).
pub proof fn law_right_wall(b: Ball, dt: int, arena: Arena)
    requires
        b.wf(),
        arena.wf(),
        0 <= dt <= MAX_STEP_MICROS,
        2 * b.radius <= arena.width,
        advance(b.x as int, b.vx as int, dt) > arena.width - b.radius,
    ensures
        horizontal(b, dt, arena).0 == arena.width - b.radius,
        horizontal(b, dt, arena).1 == damp(restitute(b.vx as int), dt),
        restitute(b.vx as int) == trunc_div(-4 * b.vx, 5),
{
}

/// A ball that would pass the left wall is put exactly on it, at `radius`,
/// and its horizontal velocity is reversed and scaled by 0.8 before air
/// resistance applies.
pub proof fn law_left_wall(b: Ball, dt: int, arena: Arena)
    requires
        b.wf(),
        arena.wf(),
        0 <= dt <= MAX_STEP_MICROS,
        advance(b.x as int, b.vx as int, dt) < b.radius,
    ensures
        horizontal(b, dt, arena).0 == b.radius,
        horizontal(b, dt, arena).1 == damp(restitute(b.vx as int), dt),
{
}

} // verus!
