//! Plane geometry on fixed-point numbers. Every result that would leave the
//! range of `Num` is saturated to its nearest end.
use vstd::prelude::*;
use crate::num::Num;

verus! {

/// A point, or a vector, of the plane; y grows downwards.
#[derive(Clone, Copy, Debug, PartialEq, Eq, Structural)]
pub struct Point {
    pub x: Num,
    pub y: Num,
}

/// `v` saturated to the range of `i64`.
pub open spec fn sat(v: int) -> int {
    if v > i64::MAX {
        i64::MAX as int
    } else if v < i64::MIN {
        i64::MIN as int
    } else {
        v
    }
}

/// Millionths of the product of two numbers given in millionths, rounded
/// down.
pub open spec fn mul_micros(a: int, b: int) -> int {
    (a * b) / 1000000
}

/// The sum of two numbers, saturated.
pub open spec fn add_spec(a: Num, b: Num) -> Num {
    Num { micros: sat(a.micros + b.micros) as i64 }
}

/// The difference of two numbers, saturated.
pub open spec fn sub_spec(a: Num, b: Num) -> Num {
    Num { micros: sat(a.micros - b.micros) as i64 }
}

/// The product of two numbers, rounded down to a millionth and saturated.
pub open spec fn mul_spec(a: Num, b: Num) -> Num {
    Num { micros: sat(mul_micros(a.micros as int, b.micros as int)) as i64 }
}

/// The point at distance `len` from `origin` along the unit vector `u`
/// (a cosine and a sine).
pub open spec fn polar_spec(len: Num, u: Point, origin: Point) -> Point {
    Point {
        x: add_spec(origin.x, mul_spec(len, u.x)),
        y: add_spec(origin.y, mul_spec(len, u.y)),
    }
}

/// The unit vector of the sum of the angles of unit vectors `u` and `v`.
pub open spec fn turn_spec(u: Point, v: Point) -> Point {
    Point {
        x: sub_spec(mul_spec(u.x, v.x), mul_spec(u.y, v.y)),
        y: add_spec(mul_spec(u.y, v.x), mul_spec(u.x, v.y)),
    }
}

/// The unit vector of the negated angle.
pub open spec fn mirror_spec(v: Point) -> Point {
    Point { x: v.x, y: Num { micros: sat(-v.y.micros) as i64 } }
}

/// The opposite vector (a half turn).
pub open spec fn opposite_spec(v: Point) -> Point {
    Point {
        x: Num { micros: sat(-v.x.micros) as i64 },
        y: Num { micros: sat(-v.y.micros) as i64 },
    }
}

pub(crate) fn saturate(v: i128) -> (r: Num)
    ensures
        r.micros == sat(v as int),
{
    if v > i64::MAX as i128 {
        Num { micros: i64::MAX }
    } else if v < i64::MIN as i128 {
        Num { micros: i64::MIN }
    } else {
        Num { micros: v as i64 }
    }
}

/// `a / b` rounded down, for `b > 0`.
pub(crate) fn div_floor(a: i128, b: i128) -> (r: i128)
    requires
        b > 0,
        a > i128::MIN,
    ensures
        r == a / b,
{
    if a >= 0 {
        a / b
    } else {
        let m: i128 = 0 - a;
        let q: i128 = (m - 1) / b;
        proof {
            let mm = m as int;
            let bb = b as int;
            let qq = (mm - 1) / bb;
            let rr = (mm - 1) % bb;
            assert(mm - 1 == qq * bb + rr && 0 <= rr < bb) by (nonlinear_arith)
                requires
                    bb > 0,
                    mm >= 1,
                    qq == (mm - 1) / bb,
                    rr == (mm - 1) % bb,
            ;
            assert(a == (-qq - 1) * bb + (bb - 1 - rr)) by (nonlinear_arith)
                requires
                    a == -mm,
                    mm - 1 == qq * bb + rr,
            ;
            assert((a as int) / bb == -qq - 1) by (nonlinear_arith)
                requires
                    a == (-qq - 1) * bb + (bb - 1 - rr),
                    0 <= bb - 1 - rr < bb,
            ;
        }
        0 - q - 1
    }
}

/// The sum of two numbers, saturated.
pub fn plus(a: Num, b: Num) -> (r: Num)
    ensures
        r == add_spec(a, b),
{
    saturate(a.micros as i128 + b.micros as i128)
}

/// The difference of two numbers, saturated.
pub fn minus(a: Num, b: Num) -> (r: Num)
    ensures
        r == sub_spec(a, b),
{
    saturate(a.micros as i128 - b.micros as i128)
}

/// The product of two numbers, rounded down to a millionth and saturated.
pub fn times(a: Num, b: Num) -> (r: Num)
    ensures
        r == mul_spec(a, b),
{
    proof {
        let aa = a.micros as int;
        let bb = b.micros as int;
        assert(aa * bb <= 0x4000_0000_0000_0000_0000_0000_0000_0000) by (nonlinear_arith)
            requires
                -0x8000_0000_0000_0000 <= aa <= 0x7fff_ffff_ffff_ffff,
                -0x8000_0000_0000_0000 <= bb <= 0x7fff_ffff_ffff_ffff,
        ;
        assert(aa * bb >= -0x4000_0000_0000_0000_0000_0000_0000_0000) by (nonlinear_arith)
            requires
                -0x8000_0000_0000_0000 <= aa <= 0x7fff_ffff_ffff_ffff,
                -0x8000_0000_0000_0000 <= bb <= 0x7fff_ffff_ffff_ffff,
        ;
    }
    let p: i128 = a.micros as i128 * b.micros as i128;
    saturate(div_floor(p, 1000000))
}

pub(crate) fn negate(a: Num) -> (r: Num)
    ensures
        r.micros == sat(-a.micros),
{
    saturate(0 - a.micros as i128)
}

/// The point at distance `len` from `origin` along the unit vector `u`.
pub fn polar_to_cartesian(len: Num, u: Point, origin: Point) -> (r: Point)
    ensures
        r == polar_spec(len, u, origin),
{
    Point { x: plus(origin.x, times(len, u.x)), y: plus(origin.y, times(len, u.y)) }
}

/// Turns the unit vector `u` by the angle of the unit vector `v`.
pub fn turn(u: Point, v: Point) -> (r: Point)
    ensures
        r == turn_spec(u, v),
{
    Point { x: minus(times(u.x, v.x), times(u.y, v.y)), y: plus(times(u.y, v.x), times(u.x, v.y)) }
}

/// The unit vector of the negated angle.
pub fn mirror(v: Point) -> (r: Point)
    ensures
        r == mirror_spec(v),
{
    Point { x: v.x, y: negate(v.y) }
}

/// The opposite vector.
pub fn opposite(v: Point) -> (r: Point)
    ensures
        r == opposite_spec(v),
{
    Point { x: negate(v.x), y: negate(v.y) }
}

/// Whether `r` is the square root of `n`, rounded down.
pub open spec fn is_floor_sqrt(n: int, r: int) -> bool {
    0 <= r && r * r <= n < (r + 1) * (r + 1)
}

/// The square root of `n >= 0`, rounded down.
pub open spec fn floor_sqrt(n: int) -> int {
    choose|r: int| is_floor_sqrt(n, r)
}

proof fn lemma_floor_sqrt_unique(n: int, r: int)
    requires
        is_floor_sqrt(n, r),
    ensures
        floor_sqrt(n) == r,
{
    let s = floor_sqrt(n);
    assert(is_floor_sqrt(n, s));
    if s < r {
        assert((s + 1) * (s + 1) <= r * r) by (nonlinear_arith)
            requires
                0 <= s < r,
        ;
    } else if r < s {
        assert((r + 1) * (r + 1) <= s * s) by (nonlinear_arith)
            requires
                0 <= r < s,
        ;
    }
}

/// The square root of `n`, rounded down.
fn isqrt(n: u128) -> (r: u128)
    requires
        n < 0x2000_0000_0000_0000_0000_0000_0000_0000,
    ensures
        is_floor_sqrt(n as int, r as int),
        r < 0x8000_0000_0000_0000,
{
    let mut lo: u128 = 0;
    let mut hi: u128 = 0x8000_0000_0000_0000;
    assert(hi * hi > n) by (nonlinear_arith)
        requires
            hi == 0x8000_0000_0000_0000,
            n < 0x2000_0000_0000_0000_0000_0000_0000_0000,
    ;
    while hi - lo > 1
        invariant
            lo < hi <= 0x8000_0000_0000_0000,
            lo * lo <= n,
            n < hi * hi,
        decreases hi - lo,
    {
        let mid = lo + (hi - lo) / 2;
        assert(mid * mid <= 0x4000_0000_0000_0000_0000_0000_0000_0000) by (nonlinear_arith)
            requires
                mid < 0x8000_0000_0000_0000,
        ;
        if mid * mid <= n {
            lo = mid;
        } else {
            hi = mid;
        }
    }
    assert(hi == lo + 1);
    lo
}

/// The differences `to - from`, scaled down by `2^32` when either is too
/// large to square exactly.
pub open spec fn scaled_offset(from: Point, to: Point) -> (int, int) {
    let dx = to.x.micros - from.x.micros;
    let dy = to.y.micros - from.y.micros;
    if dx >= 0x4000_0000_0000_0000 || dx <= -0x4000_0000_0000_0000 || dy >= 0x4000_0000_0000_0000
        || dy <= -0x4000_0000_0000_0000 {
        (dx / 0x1_0000_0000, dy / 0x1_0000_0000)
    } else {
        (dx, dy)
    }
}

/// The distance from `from` to `to`, rounded down and saturated.
pub open spec fn distance_spec(from: Point, to: Point) -> Num {
    let dx = to.x.micros - from.x.micros;
    let dy = to.y.micros - from.y.micros;
    let (ex, ey) = scaled_offset(from, to);
    let r = floor_sqrt(ex * ex + ey * ey);
    if ex == dx && ey == dy {
        Num { micros: sat(r) as i64 }
    } else {
        Num { micros: sat(r * 0x1_0000_0000) as i64 }
    }
}

/// The magnitude of `v`.
pub open spec fn abs(v: int) -> int {
    if v < 0 {
        -v
    } else {
        v
    }
}

/// The offset `to - from` brought to a size where its square root keeps
/// full precision: an offset whose larger coordinate is below `2^61` is
/// multiplied by `2^61` divided by that coordinate (rounded down), so that
/// it lies between `2^60` and `2^61`; a larger one is divided by `2^32`,
/// rounded down. Either way its direction is (very nearly) kept.
pub open spec fn direction_offset(from: Point, to: Point) -> (int, int) {
    let dx = to.x.micros - from.x.micros;
    let dy = to.y.micros - from.y.micros;
    let m = if abs(dx) >= abs(dy) {
        abs(dx)
    } else {
        abs(dy)
    };
    if m == 0 {
        (0, 0)
    } else if m >= 0x2000_0000_0000_0000 {
        (dx / 0x1_0000_0000, dy / 0x1_0000_0000)
    } else {
        let k: int = 0x2000_0000_0000_0000int / m;
        (dx * k, dy * k)
    }
}

/// Millionths of `e / r`, rounded towards zero.
pub open spec fn unit_part(e: int, r: int) -> int {
    if e >= 0 {
        (e * 1000000) / r
    } else {
        -((-e * 1000000) / r)
    }
}

/// The unit vector (cosine and sine) pointing from `from` to `to`, each
/// part rounded towards zero to millionths, computed from the offset
/// brought to full precision (`direction_offset`); `(1, 0)`, the angle
/// zero, when the points coincide.
pub open spec fn direction_spec(from: Point, to: Point) -> Point {
    let (ex, ey) = direction_offset(from, to);
    if ex == 0 && ey == 0 {
        Point { x: Num { micros: 1000000 }, y: Num { micros: 0 } }
    } else {
        let r = floor_sqrt(ex * ex + ey * ey);
        Point {
            x: Num { micros: unit_part(ex, r) as i64 },
            y: Num { micros: unit_part(ey, r) as i64 },
        }
    }
}

/// Whether `u` is a unit vector up to the rounding of its parts to
/// millionths: its length is below `1.000001`, and adding one millionth to
/// the size of each part makes it longer than 1.
pub open spec fn near_unit(u: Point) -> bool {
    let x = u.x.micros as int;
    let y = u.y.micros as int;
    &&& x * x + y * y < 1000001 * 1000001
    &&& (abs(x) + 1) * (abs(x) + 1) + (abs(y) + 1) * (abs(y) + 1) > 1000000 * 1000000
}

/// The parts of a non-zero offset divided by the rounded-down length of
/// the offset: each is at most one in size, and together they form a unit
/// vector up to rounding, once the length is at least one million.
proof fn lemma_unit_parts(ex: int, ey: int, r: int)
    requires
        is_floor_sqrt(ex * ex + ey * ey, r),
        ex * ex + ey * ey >= 1000000 * 1000000,
    ensures
        r >= 1000000,
        abs(unit_part(ex, r)) <= 1000000,
        abs(unit_part(ey, r)) <= 1000000,
        unit_part(ex, r) * unit_part(ex, r) + unit_part(ey, r) * unit_part(ey, r) < 1000001
            * 1000001,
        (abs(unit_part(ex, r)) + 1) * (abs(unit_part(ex, r)) + 1) + (abs(unit_part(ey, r)) + 1)
            * (abs(unit_part(ey, r)) + 1) > 1000000 * 1000000,
{
    let s: int = 1000000;
    let n = ex * ex + ey * ey;
    let a = abs(ex);
    let b = abs(ey);
    assert(a * a == ex * ex && b * b == ey * ey) by (nonlinear_arith)
        requires
            a == abs(ex),
            b == abs(ey),
    ;
    assert(r >= s) by (nonlinear_arith)
        requires
            n >= s * s,
            n < (r + 1) * (r + 1),
            r >= 0,
            s > 0,
    ;
    assert(a <= r && b <= r) by (nonlinear_arith)
        requires
            a * a + b * b == n,
            n < (r + 1) * (r + 1),
            a >= 0,
            b >= 0,
            r >= 0,
    ;
    let qa = (a * s) / r;
    let qb = (b * s) / r;
    assert(qa * r <= a * s && a * s < (qa + 1) * r && qa >= 0) by (nonlinear_arith)
        requires
            qa == (a * s) / r,
            r > 0,
            a >= 0,
            s > 0,
    ;
    assert(qb * r <= b * s && b * s < (qb + 1) * r && qb >= 0) by (nonlinear_arith)
        requires
            qb == (b * s) / r,
            r > 0,
            b >= 0,
            s > 0,
    ;
    assert(qa <= s && qb <= s) by (nonlinear_arith)
        requires
            qa * r <= a * s,
            qb * r <= b * s,
            a <= r,
            b <= r,
            r > 0,
            s > 0,
    ;
    assert(abs(unit_part(ex, r)) == qa);
    assert(abs(unit_part(ey, r)) == qb);
    assert(unit_part(ex, r) * unit_part(ex, r) == qa * qa) by (nonlinear_arith)
        requires
            abs(unit_part(ex, r)) == qa,
    ;
    assert(unit_part(ey, r) * unit_part(ey, r) == qb * qb) by (nonlinear_arith)
        requires
            abs(unit_part(ey, r)) == qb,
    ;
    // upper bound
    assert((qa * r) * (qa * r) <= (a * s) * (a * s)) by (nonlinear_arith)
        requires
            0 <= qa * r <= a * s,
    ;
    assert((qb * r) * (qb * r) <= (b * s) * (b * s)) by (nonlinear_arith)
        requires
            0 <= qb * r <= b * s,
    ;
    assert((qa * qa + qb * qb) * (r * r) == (qa * r) * (qa * r) + (qb * r) * (qb * r))
        by (nonlinear_arith);
    assert((a * s) * (a * s) + (b * s) * (b * s) == n * (s * s)) by (nonlinear_arith)
        requires
            a * a + b * b == n,
    ;
    assert(n * (s * s) < (r + 1) * (r + 1) * (s * s)) by (nonlinear_arith)
        requires
            n < (r + 1) * (r + 1),
            s > 0,
    ;
    assert(qa * qa + qb * qb < (s + 1) * (s + 1)) by (nonlinear_arith)
        requires
            (qa * qa + qb * qb) * (r * r) < (r + 1) * (r + 1) * (s * s),
            r >= s,
            s > 0,
    {
        if qa * qa + qb * qb >= (s + 1) * (s + 1) {
            assert((s + 1) * (s + 1) * (r * r) <= (qa * qa + qb * qb) * (r * r));
            assert((s + 1) * r >= (r + 1) * s);
            assert((s + 1) * (s + 1) * (r * r) >= (r + 1) * (r + 1) * (s * s));
        }
    }
    // lower bound
    assert((a * s) * (a * s) < ((qa + 1) * r) * ((qa + 1) * r)) by (nonlinear_arith)
        requires
            0 <= a * s < (qa + 1) * r,
    ;
    assert((b * s) * (b * s) < ((qb + 1) * r) * ((qb + 1) * r)) by (nonlinear_arith)
        requires
            0 <= b * s < (qb + 1) * r,
    ;
    assert(((qa + 1) * (qa + 1) + (qb + 1) * (qb + 1)) * (r * r) == ((qa + 1) * r) * ((qa + 1)
        * r) + ((qb + 1) * r) * ((qb + 1) * r)) by (nonlinear_arith);
    assert(n * (s * s) < ((qa + 1) * (qa + 1) + (qb + 1) * (qb + 1)) * (r * r));
    assert(r * r * (s * s) <= n * (s * s)) by (nonlinear_arith)
        requires
            r * r <= n,
    ;
    assert((qa + 1) * (qa + 1) + (qb + 1) * (qb + 1) > s * s) by (nonlinear_arith)
        requires
            r * r * (s * s) < ((qa + 1) * (qa + 1) + (qb + 1) * (qb + 1)) * (r * r),
            r > 0,
    ;
}

/// The direction from `from` to `to` is a unit vector up to rounding.
pub proof fn lemma_direction_near_unit(from: Point, to: Point)
    ensures
        near_unit(direction_spec(from, to)),
{
    let (ex, ey) = direction_offset(from, to);
    if !(ex == 0 && ey == 0) {
        lemma_direction_offset(from, to, ex, ey);
        let r = floor_sqrt(ex * ex + ey * ey);
        lemma_floor_sqrt_exists(ex * ex + ey * ey);
        lemma_unit_parts(ex, ey, r);
    }
}

proof fn lemma_floor_sqrt_exists(n: int)
    requires
        0 <= n < 0x2000_0000_0000_0000_0000_0000_0000_0000,
    ensures
        is_floor_sqrt(n, floor_sqrt(n)),
{
    let r = isqrt_witness(n);
    lemma_floor_sqrt_unique(n, r);
}

/// A witness that the rounded-down square root exists.
proof fn isqrt_witness(n: int) -> (r: int)
    requires
        0 <= n,
    ensures
        is_floor_sqrt(n, r),
    decreases n,
{
    if n == 0 {
        0
    } else {
        let q = isqrt_witness(n - 1);
        if (q + 1) * (q + 1) <= n {
            assert((q + 1) * (q + 1) == n) by (nonlinear_arith)
                requires
                    (q + 1) * (q + 1) <= n,
                    n - 1 < (q + 1) * (q + 1),
            ;
            assert(is_floor_sqrt(n, q + 1)) by (nonlinear_arith)
                requires
                    (q + 1) * (q + 1) == n,
                    q >= 0,
            ;
            q + 1
        } else {
            assert(is_floor_sqrt(n, q)) by (nonlinear_arith)
                requires
                    is_floor_sqrt(n - 1, q),
                    n < (q + 1) * (q + 1),
            ;
            q
        }
    }
}

/// The offset brought to full precision stays small enough to square
/// exactly and, unless the points coincide, is at least a million long.
proof fn lemma_direction_offset(from: Point, to: Point, ex: int, ey: int)
    requires
        (ex, ey) == direction_offset(from, to),
    ensures
        abs(ex) <= 0x2000_0000_0000_0000,
        abs(ey) <= 0x2000_0000_0000_0000,
        0 <= ex * ex + ey * ey <= 0x0800_0000_0000_0000_0000_0000_0000_0000,
        (ex == 0 && ey == 0) <==> (from.x.micros == to.x.micros && from.y.micros == to.y.micros),
        !(ex == 0 && ey == 0) ==> ex * ex + ey * ey >= 1000000 * 1000000,
{
    let dx = to.x.micros - from.x.micros;
    let dy = to.y.micros - from.y.micros;
    let m = if abs(dx) >= abs(dy) {
        abs(dx)
    } else {
        abs(dy)
    };
    let lim: int = 0x2000_0000_0000_0000;
    let big: int = 0x1_0000_0000;
    if m == 0 {
        assert(ex == 0 && ey == 0);
        assert(ex * ex + ey * ey == 0) by (nonlinear_arith)
            requires
                ex == 0 && ey == 0,
        ;
    } else if m >= lim {
        assert(abs(ex) <= big && abs(ey) <= big) by (nonlinear_arith)
            requires
                ex == dx / big,
                ey == dy / big,
                abs(dx) < 0x1_0000_0000_0000_0000 + 1,
                abs(dy) < 0x1_0000_0000_0000_0000 + 1,
                big == 0x1_0000_0000,
        ;
        assert(abs(ex) >= 0x2000_0000 || abs(ey) >= 0x2000_0000) by (nonlinear_arith)
            requires
                ex == dx / big,
                ey == dy / big,
                abs(dx) >= lim || abs(dy) >= lim,
                big == 0x1_0000_0000,
                lim == 0x2000_0000_0000_0000,
        ;
        assert(ex * ex + ey * ey >= 1000000 * 1000000 && ex * ex + ey * ey <= 2 * big * big)
            by (nonlinear_arith)
            requires
                abs(ex) <= big && abs(ey) <= big,
                abs(ex) >= 0x2000_0000 || abs(ey) >= 0x2000_0000,
        ;
    } else {
        let k = lim / m;
        assert(k >= 1 && m * k <= lim && m * k > lim - m) by (nonlinear_arith)
            requires
                k == lim / m,
                0 < m < lim,
        ;
        assert(m * k >= 0x100_0000) by (nonlinear_arith)
            requires
                k >= 1,
                m * k > lim - m,
                lim == 0x2000_0000_0000_0000,
                m > 0,
        ;
        assert(abs(ex) == abs(dx) * k && abs(ey) == abs(dy) * k) by (nonlinear_arith)
            requires
                ex == dx * k,
                ey == dy * k,
                k >= 1,
        ;
        assert(abs(ex) <= lim && abs(ey) <= lim) by (nonlinear_arith)
            requires
                abs(ex) == abs(dx) * k,
                abs(ey) == abs(dy) * k,
                abs(dx) <= m,
                abs(dy) <= m,
                m * k <= lim,
                k >= 1,
        ;
        assert(abs(ex) >= 0x100_0000 || abs(ey) >= 0x100_0000) by (nonlinear_arith)
            requires
                abs(ex) == abs(dx) * k,
                abs(ey) == abs(dy) * k,
                m == abs(dx) || m == abs(dy),
                m * k >= 0x100_0000,
        ;
        assert(ex * ex + ey * ey >= 1000000 * 1000000 && ex * ex + ey * ey <= 2 * lim * lim)
            by (nonlinear_arith)
            requires
                abs(ex) <= lim && abs(ey) <= lim,
                abs(ex) >= 0x100_0000 || abs(ey) >= 0x100_0000,
        ;
    }
}

fn direction(from: Point, to: Point) -> (u: Point)
    ensures
        u == direction_spec(from, to),
{
    let dx: i128 = to.x.micros as i128 - from.x.micros as i128;
    let dy: i128 = to.y.micros as i128 - from.y.micros as i128;
    let ax: i128 = if dx < 0 { 0 - dx } else { dx };
    let ay: i128 = if dy < 0 { 0 - dy } else { dy };
    let m: i128 = if ax >= ay { ax } else { ay };
    if m == 0 {
        return Point { x: Num { micros: 1000000 }, y: Num { micros: 0 } };
    }
    let (ex, ey): (i128, i128) = if m >= 0x2000_0000_0000_0000 {
        (div_floor(dx, 0x1_0000_0000), div_floor(dy, 0x1_0000_0000))
    } else {
        let k: i128 = 0x2000_0000_0000_0000 / m;
        assert(ax * k <= 0x2000_0000_0000_0000 && ay * k <= 0x2000_0000_0000_0000)
            by (nonlinear_arith)
            requires
                k as int == 0x2000_0000_0000_0000int / (m as int),
                0 <= ax <= m,
                0 <= ay <= m,
                m > 0,
        ;
        assert(-0x2000_0000_0000_0000 <= dx * k <= 0x2000_0000_0000_0000 && -0x2000_0000_0000_0000
            <= dy * k <= 0x2000_0000_0000_0000) by (nonlinear_arith)
            requires
                ax * k <= 0x2000_0000_0000_0000,
                ay * k <= 0x2000_0000_0000_0000,
                ax == abs(dx as int),
                ay == abs(dy as int),
                k >= 0,
        ;
        (dx * k, dy * k)
    };
    assert((ex as int, ey as int) == direction_offset(from, to));
    proof {
        lemma_direction_offset(from, to, ex as int, ey as int);
    }
    assert(ex * ex >= 0 && ey * ey >= 0) by (nonlinear_arith);
    let n: u128 = (ex * ex + ey * ey) as u128;
    let r = isqrt(n);
    proof {
        lemma_floor_sqrt_unique(n as int, r as int);
        lemma_unit_parts(ex as int, ey as int, r as int);
    }
    let ux: i128 = if ex >= 0 {
        (ex * 1000000) / r as i128
    } else {
        0 - ((0 - ex) * 1000000) / r as i128
    };
    let uy: i128 = if ey >= 0 {
        (ey * 1000000) / r as i128
    } else {
        0 - ((0 - ey) * 1000000) / r as i128
    };
    Point { x: Num { micros: ux as i64 }, y: Num { micros: uy as i64 } }
}

fn distance(center: Point, point: Point) -> (d: Num)
    ensures
        d == distance_spec(center, point),
{
    let dx: i128 = point.x.micros as i128 - center.x.micros as i128;
    let dy: i128 = point.y.micros as i128 - center.y.micros as i128;
    let big = dx >= 0x4000_0000_0000_0000 || dx <= -0x4000_0000_0000_0000 || dy
        >= 0x4000_0000_0000_0000 || dy <= -0x4000_0000_0000_0000;
    let ex: i128 = if big {
        div_floor(dx, 0x1_0000_0000)
    } else {
        dx
    };
    let ey: i128 = if big {
        div_floor(dy, 0x1_0000_0000)
    } else {
        dy
    };
    assert(ex < 0x4000_0000_0000_0000 && ex > -0x4000_0000_0000_0000);
    assert(ey < 0x4000_0000_0000_0000 && ey > -0x4000_0000_0000_0000);
    assert(ex * ex + ey * ey < 0x2000_0000_0000_0000_0000_0000_0000_0000) by (nonlinear_arith)
        requires
            -0x4000_0000_0000_0000 < ex < 0x4000_0000_0000_0000,
            -0x4000_0000_0000_0000 < ey < 0x4000_0000_0000_0000,
    ;
    assert(ex * ex >= 0 && ey * ey >= 0) by (nonlinear_arith);
    let n: u128 = (ex * ex + ey * ey) as u128;
    let r = isqrt(n);
    proof {
        lemma_floor_sqrt_unique(n as int, r as int);
        assert((ex as int, ey as int) == scaled_offset(center, point));
    }
    if big {
        saturate(r as i128 * 0x1_0000_0000)
    } else {
        saturate(r as i128)
    }
}

/// The polar coordinates of `point` around `center`: the distance, and the
/// direction as a unit vector (see `direction_spec`), which is a unit
/// vector up to the rounding of its parts to millionths.
pub fn cartesian_to_polar(center: Point, point: Point) -> (r: (Num, Point))
    ensures
        r.0 == distance_spec(center, point),
        r.1 == direction_spec(center, point),
        near_unit(r.1),
{
    proof {
        lemma_direction_near_unit(center, point);
    }
    (distance(center, point), direction(center, point))
}

} // verus!
