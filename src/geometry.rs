//! Fixed-point plane geometry: positions are `i64` sub-units, where one
//! field unit is `UNIT` sub-units, and time is counted in milliseconds.
//! A speed in units per second times a duration in milliseconds is then
//! exactly a distance in sub-units.
use vstd::prelude::*;
use vstd::arithmetic::div_mod::{
    lemma_div_is_ordered, lemma_div_multiples_vanish, lemma_fundamental_div_mod, lemma_mod_bound,
};

verus! {

/// Sub-units in one field unit.
pub const UNIT: i64 = 1000;

/// Largest coordinate magnitude that positions are kept within.
pub const COORD_LIMIT: i64 = 1_000_000_000_000;

/// Largest speed, in units per second, that an entity may have.
pub const MAX_SPEED: i64 = 1_000_000;

/// Longest single simulation step, in milliseconds (one hour).
pub const MAX_STEP_MS: u64 = 3_600_000;

/// Two positions collide when closer than this, in sub-units (5 units).
pub const COLLISION_RADIUS: i64 = 5000;

pub open spec fn in_bounds(v: int) -> bool {
    -COORD_LIMIT <= v <= COORD_LIMIT
}

pub open spec fn abs(v: int) -> int {
    if v < 0 { -v } else { v }
}

/// Squared Euclidean distance between two points.
pub open spec fn dist2(ax: int, ay: int, bx: int, by: int) -> int {
    (bx - ax) * (bx - ax) + (by - ay) * (by - ay)
}

/// The largest `r` with `r * r <= n`.
pub open spec fn sqrt_floor(n: nat) -> nat
    decreases n,
{
    if n == 0 {
        0
    } else {
        let r = sqrt_floor((n - 1) as nat);
        if (r + 1) * (r + 1) <= n {
            (r + 1) as nat
        } else {
            r
        }
    }
}

pub proof fn lemma_sqrt_floor(n: nat)
    ensures
        sqrt_floor(n) * sqrt_floor(n) <= n,
        n < (sqrt_floor(n) + 1) * (sqrt_floor(n) + 1),
    decreases n,
{
    if n > 0 {
        lemma_sqrt_floor((n - 1) as nat);
        let r = sqrt_floor((n - 1) as nat) as int;
        assert((r + 1) * (r + 1) < (r + 2) * (r + 2)) by (nonlinear_arith)
            requires
                r >= 0,
        ;
        let q = sqrt_floor(n) as int;
        if (r + 1) * (r + 1) <= n {
            assert(q == r + 1);
            assert(q * q <= n && n < (q + 1) * (q + 1)) by (nonlinear_arith)
                requires
                    q == r + 1,
                    (r + 1) * (r + 1) <= n,
                    n - 1 < (r + 1) * (r + 1),
                    (r + 1) * (r + 1) < (r + 2) * (r + 2),
            ;
        } else {
            assert(q == r);
            assert(q * q <= n && n < (q + 1) * (q + 1)) by (nonlinear_arith)
                requires
                    q == r,
                    r * r <= n - 1,
                    (r + 1) * (r + 1) > n,
            ;
        }
    } else {
        let q = sqrt_floor(n) as int;
        assert(q == 0);
        assert(q * q == 0 && (q + 1) * (q + 1) == 1) by (nonlinear_arith)
            requires
                q == 0,
        ;
    }
}

proof fn lemma_sqrt_floor_unique(n: nat, r: nat)
    requires
        r * r <= n,
        n < (r + 1) * (r + 1),
    ensures
        r == sqrt_floor(n),
{
    lemma_sqrt_floor(n);
    let s = sqrt_floor(n);
    if r < s {
        assert((r + 1) * (r + 1) <= s * s) by (nonlinear_arith)
            requires
                r + 1 <= s,
                r >= 0,
        ;
    }
    if s < r {
        assert((s + 1) * (s + 1) <= r * r) by (nonlinear_arith)
            requires
                s + 1 <= r,
                s >= 0,
        ;
    }
}

/// Integer square root, rounded down, of a value below `2^90`.
pub fn isqrt(n: u128) -> (r: u128)
    requires
        n < 1_237_940_039_285_380_274_899_124_224,
    ensures
        r == sqrt_floor(n as nat),
{
    let mut lo: u128 = 0;
    // 2^45, whose square exceeds every admitted `n`
    let mut hi: u128 = 35_184_372_088_832;
    assert(n < hi * hi);
    while hi - lo > 1
        invariant
            lo < hi <= 35_184_372_088_832,
            lo * lo <= n,
            n < hi * hi,
        decreases hi - lo,
    {
        let mid: u128 = lo + (hi - lo) / 2;
        assert(mid * mid <= 35_184_372_088_832 * 35_184_372_088_832) by (nonlinear_arith)
            requires
                mid <= 35_184_372_088_832,
        ;
        if mid * mid <= n {
            lo = mid;
        } else {
            hi = mid;
        }
    }
    proof {
        lemma_sqrt_floor_unique(n as nat, lo as nat);
    }
    lo
}

/// Truncated share `d * s / r` of a step `s`, signed like `d`.
pub open spec fn toward(d: int, s: int, r: int) -> int {
    if d >= 0 {
        d * s / r
    } else {
        -((-d) * s / r)
    }
}

/// Where a point at `(px, py)` ends up after moving the distance `s`
/// straight toward `(tx, ty)`; it stays put when it is already there.
pub open spec fn advance_spec(px: int, py: int, tx: int, ty: int, s: int) -> (int, int) {
    let dx = tx - px;
    let dy = ty - py;
    let d2 = dx * dx + dy * dy;
    if d2 == 0 {
        (px, py)
    } else {
        let r = sqrt_floor(d2 as nat) as int;
        (px + toward(dx, s, r), py + toward(dy, s, r))
    }
}

pub open spec fn collides_spec(ax: int, ay: int, bx: int, by: int) -> bool {
    dist2(ax, ay, bx, by) < COLLISION_RADIUS * COLLISION_RADIUS
}

/// `q = a / r` is the truncated quotient: `q * r <= a < (q + 1) * r`.
proof fn lemma_quotient(a: int, r: int)
    requires
        a >= 0,
        r > 0,
    ensures
        (a / r) * r <= a,
        a < (a / r + 1) * r,
        a / r >= 0,
{
    lemma_fundamental_div_mod(a, r);
    lemma_mod_bound(a, r);
    assert(a / r >= 0) by {
        vstd::arithmetic::div_mod::lemma_div_pos_is_pos(a, r);
    }
    assert((a / r + 1) * r == r * (a / r) + r) by (nonlinear_arith);
    assert((a / r) * r == r * (a / r)) by (nonlinear_arith);
}

/// Each coordinate of a vector is at most its floored length.
proof fn lemma_axis_within(dx: int, dy: int)
    requires
        dx * dx + dy * dy > 0,
    ensures
        abs(dx) <= sqrt_floor((dx * dx + dy * dy) as nat),
        abs(dy) <= sqrt_floor((dx * dx + dy * dy) as nat),
        sqrt_floor((dx * dx + dy * dy) as nat) >= 1,
{
    let d2 = dx * dx + dy * dy;
    assert(dx * dx >= 0 && dy * dy >= 0) by (nonlinear_arith);
    lemma_sqrt_floor(d2 as nat);
    let r = sqrt_floor(d2 as nat) as int;
    assert(abs(dx) * abs(dx) == dx * dx && abs(dy) * abs(dy) == dy * dy) by (nonlinear_arith);
    if abs(dx) > r {
        assert((r + 1) * (r + 1) <= abs(dx) * abs(dx)) by (nonlinear_arith)
            requires
                abs(dx) >= r + 1,
                r >= 0,
        ;
    }
    if abs(dy) > r {
        assert((r + 1) * (r + 1) <= abs(dy) * abs(dy)) by (nonlinear_arith)
            requires
                abs(dy) >= r + 1,
                r >= 0,
        ;
    }
    if r == 0 {
        assert((r + 1) * (r + 1) == 1) by (nonlinear_arith)
            requires
                r == 0,
        ;
        assert(d2 < 1);
    }
}

/// `toward` never moves further than the whole step.
proof fn lemma_toward_bound(d: int, s: int, r: int)
    requires
        abs(d) <= r,
        s >= 0,
        r > 0,
    ensures
        abs(toward(d, s, r)) <= s,
        abs(toward(d, s, r)) == abs(d) * s / r,
        d >= 0 ==> toward(d, s, r) >= 0,
        d <= 0 ==> toward(d, s, r) <= 0,
{
    let a = abs(d);
    assert(a * s <= r * s) by (nonlinear_arith)
        requires
            0 <= a <= r,
            s >= 0,
    ;
    assert(a * s >= 0) by (nonlinear_arith)
        requires
            a >= 0,
            s >= 0,
    ;
    lemma_div_is_ordered(a * s, r * s, r);
    lemma_div_multiples_vanish(s, r);
    lemma_quotient(a * s, r);
    if d < 0 {
        assert(-d == a);
    } else {
        assert(d == a);
        if d == 0 {
            assert(a * s == 0) by (nonlinear_arith)
                requires
                    a == 0,
            ;
            let q = toward(d, s, r);
            assert(q == (a * s) / r);
            assert(q <= 0) by (nonlinear_arith)
                requires
                    q * r <= a * s,
                    a * s == 0,
                    r > 0,
            ;
        }
    }
}

fn toward_exec(d: i128, s: i128, r: i128) -> (m: i128)
    requires
        abs(d as int) <= r,
        0 <= s <= 3_600_000_000_000,
        0 < r <= 35_184_372_088_832,
    ensures
        m == toward(d as int, s as int, r as int),
        abs(m as int) <= s,
{
    proof {
        lemma_toward_bound(d as int, s as int, r as int);
        let a = abs(d as int);
        assert(a * s <= 35_184_372_088_832 * 3_600_000_000_000) by (nonlinear_arith)
            requires
                0 <= a <= 35_184_372_088_832,
                0 <= s <= 3_600_000_000_000,
        ;
        assert(a * s >= 0) by (nonlinear_arith)
            requires
                0 <= a,
                0 <= s,
        ;
    }
    if d >= 0 {
        d * s / r
    } else {
        let neg: i128 = -d;
        -(neg * s / r)
    }
}

/// Moves `(x, y)` toward `(tx, ty)` by `speed * elapsed_ms` sub-units,
/// that is `speed` units per second for `elapsed_ms` milliseconds. The
/// step is not cut short at the target, so a long step overshoots it.
pub fn advance(x: i64, y: i64, tx: i64, ty: i64, speed: i64, elapsed_ms: u64) -> (r: (i64, i64))
    requires
        in_bounds(x as int),
        in_bounds(y as int),
        in_bounds(tx as int),
        in_bounds(ty as int),
        0 <= speed <= MAX_SPEED,
        elapsed_ms <= MAX_STEP_MS,
    ensures
        (r.0 as int, r.1 as int) == advance_spec(
            x as int,
            y as int,
            tx as int,
            ty as int,
            speed * elapsed_ms,
        ),
{
    let dx: i128 = tx as i128 - x as i128;
    let dy: i128 = ty as i128 - y as i128;
    assert(dx * dx <= 4_000_000_000_000_000_000_000_000) by (nonlinear_arith)
        requires
            -2_000_000_000_000 <= dx <= 2_000_000_000_000,
    ;
    assert(dy * dy <= 4_000_000_000_000_000_000_000_000) by (nonlinear_arith)
        requires
            -2_000_000_000_000 <= dy <= 2_000_000_000_000,
    ;
    assert(dx * dx >= 0 && dy * dy >= 0) by (nonlinear_arith);
    let d2: i128 = dx * dx + dy * dy;
    if d2 == 0 {
        return (x, y);
    }
    let root: u128 = isqrt(d2 as u128);
    proof {
        lemma_axis_within(dx as int, dy as int);
        lemma_sqrt_floor(d2 as nat);
        let rr = root as int;
        assert(rr <= 35_184_372_088_832) by (nonlinear_arith)
            requires
                rr * rr <= d2,
                d2 <= 8_000_000_000_000_000_000_000_000,
                rr >= 0,
        ;
    }
    let r: i128 = root as i128;
    assert(speed * elapsed_ms <= 3_600_000_000_000) by (nonlinear_arith)
        requires
            0 <= speed <= 1_000_000,
            elapsed_ms <= 3_600_000,
    ;
    let s: i128 = speed as i128 * elapsed_ms as i128;
    let mx = toward_exec(dx, s, r);
    let my = toward_exec(dy, s, r);
    ((x as i128 + mx) as i64, (y as i128 + my) as i64)
}

/// `v` held within `[-COORD_LIMIT, COORD_LIMIT]`.
pub open spec fn clamp_coord(v: int) -> int {
    if v < -COORD_LIMIT {
        -COORD_LIMIT as int
    } else if v > COORD_LIMIT {
        COORD_LIMIT as int
    } else {
        v
    }
}

pub fn clamp(v: i128) -> (r: i64)
    ensures
        r == clamp_coord(v as int),
{
    if v < -(COORD_LIMIT as i128) {
        -COORD_LIMIT
    } else if v > COORD_LIMIT as i128 {
        COORD_LIMIT
    } else {
        v as i64
    }
}

/// A seek step of `speed` units per second for `elapsed_ms` milliseconds,
/// kept within the coordinate limit.
pub open spec fn chase(x: int, y: int, tx: int, ty: int, speed: int, elapsed_ms: int) -> (int, int) {
    let p = advance_spec(x, y, tx, ty, speed * elapsed_ms);
    (clamp_coord(p.0), clamp_coord(p.1))
}

/// Whether two positions are closer than `COLLISION_RADIUS`.
pub fn collides(ax: i64, ay: i64, bx: i64, by: i64) -> (r: bool)
    requires
        in_bounds(ax as int),
        in_bounds(ay as int),
        in_bounds(bx as int),
        in_bounds(by as int),
    ensures
        r == collides_spec(ax as int, ay as int, bx as int, by as int),
{
    let dx: i128 = bx as i128 - ax as i128;
    let dy: i128 = by as i128 - ay as i128;
    assert(dx * dx <= 4_000_000_000_000_000_000_000_000 && dx * dx >= 0) by (nonlinear_arith)
        requires
            -2_000_000_000_000 <= dx <= 2_000_000_000_000,
    ;
    assert(dy * dy <= 4_000_000_000_000_000_000_000_000 && dy * dy >= 0) by (nonlinear_arith)
        requires
            -2_000_000_000_000 <= dy <= 2_000_000_000_000,
    ;
    let radius: i128 = COLLISION_RADIUS as i128;
    assert(radius * radius == COLLISION_RADIUS * COLLISION_RADIUS) by (nonlinear_arith)
        requires
            radius == COLLISION_RADIUS,
    ;
    dx * dx + dy * dy < radius * radius
}

/// A point already at its target stays where it is, whatever the step.
pub proof fn lemma_advance_at_target(px: int, py: int, s: int)
    ensures
        advance_spec(px, py, px, py, s) == (px, py),
{
}

/// A position collides with itself; two positions at least
/// `COLLISION_RADIUS` apart do not; at exactly that distance they do not.
pub proof fn lemma_collision_threshold(ax: int, ay: int, bx: int, by: int)
    ensures
        collides_spec(ax, ay, ax, ay),
        dist2(ax, ay, bx, by) >= COLLISION_RADIUS * COLLISION_RADIUS ==> !collides_spec(
            ax,
            ay,
            bx,
            by,
        ),
        !collides_spec(ax, ay, ax + COLLISION_RADIUS, ay),
        !collides_spec(ax, ay, ax, ay + COLLISION_RADIUS),
{
    assert(dist2(ax, ay, ax, ay) == 0);
}

proof fn lemma_shrink(a: int, m: int)
    requires
        0 <= m <= a,
    ensures
        (a - m) * (a - m) <= a * a - m,
{
    assert((a - m) * (a - m) <= a * a - m) by (nonlinear_arith)
        requires
            0 <= m <= a,
    ;
}

/// One axis of a seek step: it has the sign of the offset `d`, and its
/// size is `|d| * s / r` rounded down.
proof fn lemma_axis_step(d: int, s: int, r: int)
    requires
        abs(d) <= r,
        s >= 0,
        r > 0,
    ensures
        d >= 0 ==> toward(d, s, r) >= 0,
        d <= 0 ==> toward(d, s, r) <= 0,
        abs(toward(d, s, r)) * r <= abs(d) * s,
        abs(d) * s < (abs(toward(d, s, r)) + 1) * r,
        s <= r ==> abs(toward(d, s, r)) <= abs(d),
        abs(d - toward(d, s, r)) == abs(d) - abs(toward(d, s, r)) || s > r,
{
    lemma_toward_bound(d, s, r);
    lemma_quotient(abs(d) * s, r);
    let m = abs(toward(d, s, r));
    if s <= r {
        assert(m <= abs(d)) by (nonlinear_arith)
            requires
                m * r <= abs(d) * s,
                s <= r,
                r > 0,
                abs(d) >= 0,
        ;
    }
}

/// Seeking toward a distinct target: on each axis the step never points
/// away from the target, and it is the share `|d| * s / r` of the step `s`
/// rounded down, `r` being the distance rounded down. When the step is at
/// least two sub-units and does not exceed the distance, the new position
/// is strictly closer to the target.
pub proof fn lemma_advance_seeks(px: int, py: int, tx: int, ty: int, s: int)
    requires
        px != tx || py != ty,
        s >= 0,
    ensures
        ({
            let dx = tx - px;
            let dy = ty - py;
            let r = sqrt_floor((dx * dx + dy * dy) as nat) as int;
            let mx = advance_spec(px, py, tx, ty, s).0 - px;
            let my = advance_spec(px, py, tx, ty, s).1 - py;
            &&& r >= 1
            &&& dx >= 0 ==> mx >= 0
            &&& dx <= 0 ==> mx <= 0
            &&& dy >= 0 ==> my >= 0
            &&& dy <= 0 ==> my <= 0
            &&& abs(mx) * r <= abs(dx) * s < (abs(mx) + 1) * r
            &&& abs(my) * r <= abs(dy) * s < (abs(my) + 1) * r
            &&& 2 <= s <= r ==> dist2(px + mx, py + my, tx, ty) < dist2(px, py, tx, ty)
        }),
{
    let dx = tx - px;
    let dy = ty - py;
    let d2 = dx * dx + dy * dy;
    assert(d2 > 0) by (nonlinear_arith)
        requires
            dx != 0 || dy != 0,
            d2 == dx * dx + dy * dy,
    ;
    lemma_axis_within(dx, dy);
    lemma_sqrt_floor(d2 as nat);
    let r = sqrt_floor(d2 as nat) as int;
    lemma_axis_step(dx, s, r);
    lemma_axis_step(dy, s, r);
    let mx = toward(dx, s, r);
    let my = toward(dy, s, r);
    if 2 <= s <= r {
        let a = abs(dx);
        let b = abs(dy);
        let m = abs(mx);
        let n = abs(my);
        assert(a * a == dx * dx && b * b == dy * dy) by (nonlinear_arith)
            requires
                a == abs(dx),
                b == abs(dy),
        ;
        assert(m + n >= 1) by (nonlinear_arith)
            requires
                a * s < (m + 1) * r,
                b * s < (n + 1) * r,
                r * r <= a * a + b * b,
                a * a + b * b > 0,
                s >= 2,
                m >= 0,
                n >= 0,
                a >= 0,
                b >= 0,
                r >= 1,
        ;
        lemma_shrink(a, m);
        lemma_shrink(b, n);
        assert((dx - mx) * (dx - mx) == (a - m) * (a - m)) by (nonlinear_arith)
            requires
                abs(dx - mx) == a - m,
        ;
        assert((dy - my) * (dy - my) == (b - n) * (b - n)) by (nonlinear_arith)
            requires
                abs(dy - my) == b - n,
        ;
    }
}

} // verus!
