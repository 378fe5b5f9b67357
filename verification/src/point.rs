//! Integer vectors of the board plane, with the exact geometric tests the
//! engine decides on.

use crate::arith::{
    floor_sqrt, is_floor_sqrt, isqrt, lemma_floor_sqrt_exists, lemma_product_bound, product_lt,
};
use vstd::prelude::*;

verus! {

/// Largest magnitude of a coordinate of a board position. Within it every
/// exact test of this module is computed without overflow.
pub const COORD_LIMIT: i32 = 10_000;

/// A position on the board, or the displacement between two positions.
#[derive(Copy, Clone, PartialEq, Eq, Structural, Debug)]
pub struct Vector2 {
    pub x: i32,
    pub y: i32,
}

/// The inner product of two vectors.
pub open spec fn dot_of(u: Vector2, v: Vector2) -> int {
    u.x * v.x + u.y * v.y
}

/// The signed area spanned by two vectors: positive when `v` lies
/// counter-clockwise of `u`.
pub open spec fn cross_of(u: Vector2, v: Vector2) -> int {
    u.x * v.y - u.y * v.x
}

/// The angle between `u` and `v` is less than twenty degrees.
///
/// With `d` the inner product and `c` the signed area of the two vectors,
/// the tangent of the angle is `|c| / d`. The angle is acute when `d > 0`,
/// and since `tan(3 * 20°) = sqrt(3)`, the number `t = tan²(20°)` is the
/// least root of `z³ - 33 z² + 27 z - 3`. That polynomial is negative below
/// `t` and positive from `t` up to one half, so for `z = c² / d² < 1/2` the
/// angle is below twenty degrees exactly when the polynomial is negative at
/// `z`. A zero vector forms no angle with anything. `lemma_angle_threshold`
/// proves that the test is a threshold on the tangent, and between which two
/// numbers the threshold lies.
pub open spec fn angle_below_20_degrees(u: Vector2, v: Vector2) -> bool {
    let d = dot_of(u, v);
    let c = cross_of(u, v);
    d > 0 && tangent_sq_below(c * c, d * d)
}

/// The polynomial `z³ - 33 z² + 27 z - 3` at `z = c / d`, times `d³`.
pub open spec fn tangent_cubic(c: int, d: int) -> int {
    c * c * c - 33 * (c * c * d) + 27 * (c * d * d) - 3 * (d * d * d)
}

/// The ratio `cc / dd`, the square of a tangent, is less than `tan²(20°)`:
/// it is less than one half, and the cubic is negative at it.
pub open spec fn tangent_sq_below(cc: int, dd: int) -> bool {
    2 * cc < dd && tangent_cubic(cc, dd) < 0
}

proof fn lemma_swap_factors(a: int, b: int, c: int, d: int)
    ensures
        (a * b) * (c * d) == (a * c) * (b * d),
{
    assert((a * b) * (c * d) == (a * c) * (b * d)) by (nonlinear_arith);
}

/// Scaling both arguments by `k` scales the cubic by `k³`.
proof fn lemma_tangent_cubic_scales(c: int, d: int, k: int)
    ensures
        tangent_cubic(c * k, d * k) == tangent_cubic(c, d) * (k * k * k),
{
    let kkk = k * k * k;
    lemma_swap_factors(c, k, c, k);
    lemma_swap_factors(c * c, k * k, c, k);
    lemma_swap_factors(c * c, k * k, d, k);
    lemma_swap_factors(c, k, d, k);
    lemma_swap_factors(c * d, k * k, d, k);
    lemma_swap_factors(d, k, d, k);
    lemma_swap_factors(d * d, k * k, d, k);
    let t1 = (c * k) * (c * k) * (c * k);
    let t2 = (c * k) * (c * k) * (d * k);
    let t3 = (c * k) * (d * k) * (d * k);
    let t4 = (d * k) * (d * k) * (d * k);
    assert(t1 == (c * c * c) * kkk);
    assert(t2 == (c * c * d) * kkk);
    assert(t3 == (c * d * d) * kkk);
    assert(t4 == (d * d * d) * kkk);
    let ccc = c * c * c;
    let ccd = c * c * d;
    let cdd = c * d * d;
    let ddd = d * d * d;
    assert(ccc * kkk - 33 * (ccd * kkk) + 27 * (cdd * kkk) - 3 * (ddd * kkk) == (ccc - 33 * ccd + 27
        * cdd - 3 * ddd) * kkk) by (nonlinear_arith);
}

/// The cubic as a difference of two products of non-negative terms.
proof fn lemma_tangent_cubic_sign(c: int, d: int)
    ensures
        c * (c * c + 27 * (d * d)) - d * (33 * (c * c) + 3 * (d * d)) == tangent_cubic(c, d),
{
    assert(c * (c * c + 27 * (d * d)) - d * (33 * (c * c) + 3 * (d * d)) == c * c * c - 33 * (c
        * c * d) + 27 * (c * d * d) - 3 * (d * d * d)) by (nonlinear_arith);
}

/// Below a quarter of `m` the cubic grows with its first argument.
proof fn lemma_tangent_cubic_grows(x: int, y: int, m: int)
    requires
        0 <= x <= y,
        4 * y < m,
    ensures
        tangent_cubic(x, m) <= tangent_cubic(y, m),
{
    let xx = x * x;
    let yy = y * y;
    let xy = x * y;
    let mm = m * m;
    let gap = y - x;
    assert(y * y * y - x * x * x == gap * (yy + xy + xx)) by (nonlinear_arith)
        requires
            xx == x * x,
            yy == y * y,
            xy == x * y,
            gap == y - x,
    ;
    assert(y * y * m - x * x * m == gap * ((x + y) * m)) by (nonlinear_arith)
        requires
            gap == y - x,
    ;
    assert(y * m * m - x * m * m == gap * mm) by (nonlinear_arith)
        requires
            gap == y - x,
            mm == m * m,
    ;
    let slope = (yy + xy + xx) - 33 * ((x + y) * m) + 27 * mm;
    assert(gap * (yy + xy + xx) - 33 * (gap * ((x + y) * m)) + 27 * (gap * mm) == gap * slope)
        by (nonlinear_arith)
        requires
            slope == (yy + xy + xx) - 33 * ((x + y) * m) + 27 * mm,
    ;
    assert(tangent_cubic(y, m) - tangent_cubic(x, m) == gap * slope);
    let ym = y * m;
    assert((x + y) * m <= 2 * ym && 4 * ym <= mm && 0 <= ym) by (nonlinear_arith)
        requires
            0 <= x <= y,
            4 * y < m,
            mm == m * m,
            ym == y * m,
    ;
    assert(yy + xy + xx >= 0) by (nonlinear_arith)
        requires
            xx == x * x,
            yy == y * y,
            xy == x * y,
            0 <= x <= y,
    ;
    assert(slope >= 0);
    assert(gap * slope >= 0) by (nonlinear_arith)
        requires
            gap >= 0,
            slope >= 0,
    ;
}

/// `tangent_sq_below` is a threshold: what holds of a ratio holds of every
/// smaller one.
pub proof fn lemma_tangent_sq_threshold(c1: int, d1: int, c2: int, d2: int)
    requires
        0 <= c1,
        0 < d1,
        0 <= c2,
        0 < d2,
        c1 * d2 <= c2 * d1,
        tangent_sq_below(c2, d2),
    ensures
        tangent_sq_below(c1, d1),
{
    let x = c1 * d2;
    let y = c2 * d1;
    let m = d1 * d2;
    assert(2 * c1 < d1) by (nonlinear_arith)
        requires
            c1 * d2 <= c2 * d1,
            2 * c2 < d2,
            0 < d1,
            0 < d2,
    ;
    // Between a quarter and a half the cubic is positive, so the larger ratio
    // lies below a quarter.
    assert(4 * c2 < d2) by {
        if 4 * c2 >= d2 {
            let q = 27 * (c2 * d2) - 33 * (c2 * c2) - 3 * (d2 * d2);
            assert(q == 4 * ((4 * c2 - d2) * (d2 - 2 * c2)) + c2 * (3 * d2 - c2) + d2 * d2)
                by (nonlinear_arith)
                requires
                    q == 27 * (c2 * d2) - 33 * (c2 * c2) - 3 * (d2 * d2),
            ;
            assert((4 * c2 - d2) * (d2 - 2 * c2) >= 0 && c2 * (3 * d2 - c2) >= 0 && d2 * d2 > 0)
                by (nonlinear_arith)
                requires
                    4 * c2 >= d2,
                    2 * c2 < d2,
                    0 <= c2,
                    0 < d2,
            ;
            assert(tangent_cubic(c2, d2) == c2 * c2 * c2 + d2 * q) by (nonlinear_arith)
                requires
                    q == 27 * (c2 * d2) - 33 * (c2 * c2) - 3 * (d2 * d2),
                    tangent_cubic(c2, d2) == c2 * c2 * c2 - 33 * (c2 * c2 * d2) + 27 * (c2 * d2
                        * d2) - 3 * (d2 * d2 * d2),
            ;
            assert(c2 * c2 * c2 >= 0 && d2 * q > 0) by (nonlinear_arith)
                requires
                    0 <= c2,
                    0 < d2,
                    q > 0,
            ;
        }
    }
    assert(0 <= x <= y && 4 * y < m && m == d2 * d1) by (nonlinear_arith)
        requires
            x == c1 * d2,
            y == c2 * d1,
            m == d1 * d2,
            c1 * d2 <= c2 * d1,
            4 * c2 < d2,
            0 <= c1,
            0 < d1,
            0 <= c2,
            0 < d2,
    ;
    lemma_tangent_cubic_scales(c1, d1, d2);
    lemma_tangent_cubic_scales(c2, d2, d1);
    lemma_tangent_cubic_grows(x, y, m);
    let e1 = d2 * d2 * d2;
    let e2 = d1 * d1 * d1;
    assert(e1 > 0 && e2 > 0) by (nonlinear_arith)
        requires
            e1 == d2 * d2 * d2,
            e2 == d1 * d1 * d1,
            0 < d1,
            0 < d2,
    ;
    assert(tangent_cubic(c2, d2) * e2 < 0) by (nonlinear_arith)
        requires
            tangent_cubic(c2, d2) < 0,
            e2 > 0,
    ;
    assert(tangent_cubic(c1, d1) < 0) by (nonlinear_arith)
        requires
            tangent_cubic(c1, d1) * e1 < 0,
            e1 > 0,
    ;
}

/// The test of the angle is a test of its tangent against a threshold that
/// lies between 0.363970234 and 0.363970235, as the tangent of twenty
/// degrees does: two vectors with a positive inner product whose tangent
/// `|c| / d` is at most the lower number are less than twenty degrees apart,
/// and two vectors whose tangent is at least the upper number are not.
pub proof fn lemma_angle_threshold(u: Vector2, v: Vector2)
    ensures
        dot_of(u, v) > 0 && 1_000_000_000 * cross_of(u, v) <= 363_970_234 * dot_of(u, v)
            && -1_000_000_000 * cross_of(u, v) <= 363_970_234 * dot_of(u, v)
            ==> angle_below_20_degrees(u, v),
        1_000_000_000 * cross_of(u, v) >= 363_970_235 * dot_of(u, v) || -1_000_000_000 * cross_of(
            u,
            v,
        ) >= 363_970_235 * dot_of(u, v) ==> !angle_below_20_degrees(u, v),
{
    let d = dot_of(u, v);
    let c = cross_of(u, v);
    let cc = c * c;
    let dd = d * d;
    let unit: int = 1_000_000_000int * 1_000_000_000int;
    let low: int = 363_970_234int * 363_970_234int;
    let high: int = 363_970_235int * 363_970_235int;
    assert(tangent_sq_below(low, unit) && !tangent_sq_below(high, unit)) by (nonlinear_arith)
        requires
            unit == 1_000_000_000 * 1_000_000_000,
            low == 363_970_234 * 363_970_234,
            high == 363_970_235 * 363_970_235,
    ;
    if d > 0 {
        assert(cc >= 0 && dd > 0) by (nonlinear_arith)
            requires
                cc == c * c,
                dd == d * d,
                d > 0,
        ;
        if 1_000_000_000 * c <= 363_970_234 * d && -1_000_000_000 * c <= 363_970_234 * d {
            assert(cc * unit <= low * dd) by (nonlinear_arith)
                requires
                    cc == c * c,
                    dd == d * d,
                    unit == 1_000_000_000 * 1_000_000_000,
                    low == 363_970_234 * 363_970_234,
                    1_000_000_000 * c <= 363_970_234 * d,
                    -1_000_000_000 * c <= 363_970_234 * d,
                    d > 0,
            ;
            lemma_tangent_sq_threshold(cc, dd, low, unit);
        }
        if 1_000_000_000 * c >= 363_970_235 * d || -1_000_000_000 * c >= 363_970_235 * d {
            assert(high * dd <= cc * unit) by (nonlinear_arith)
                requires
                    cc == c * c,
                    dd == d * d,
                    unit == 1_000_000_000 * 1_000_000_000,
                    high == 363_970_235 * 363_970_235,
                    1_000_000_000 * c >= 363_970_235 * d || -1_000_000_000 * c >= 363_970_235
                        * d,
                    d > 0,
            ;
            if tangent_sq_below(cc, dd) {
                lemma_tangent_sq_threshold(high, unit, cc, dd);
            }
        }
    }
}

/// The square of the Euclidean distance between two points.
pub open spec fn distance_sq(p: Vector2, q: Vector2) -> int {
    (p.x - q.x) * (p.x - q.x) + (p.y - q.y) * (p.y - q.y)
}

/// The Euclidean distance between two points with its fraction cut off.
pub open spec fn distance(p: Vector2, q: Vector2) -> int {
    floor_sqrt(distance_sq(p, q))
}

/// The inner product of `v` with the quarter turns of `u` is the signed area
/// spanned by the two, negated for the clockwise turn: the clockwise turn is
/// the nearer one to `v` exactly when `v` lies clockwise of `u`.
pub proof fn lemma_quarter_turns(u: Vector2, v: Vector2)
    requires
        u.is_span(),
    ensures
        dot_of(v, perp_cw_of(u)) == -cross_of(u, v),
        dot_of(v, perp_ccw_of(u)) == cross_of(u, v),
{
    assert(v.x * u.y + v.y * (-u.x) == -(u.x * v.y - u.y * v.x)) by (nonlinear_arith);
    assert(v.x * (-u.y) + v.y * u.x == u.x * v.y - u.y * v.x) by (nonlinear_arith);
}

/// The displacement that leads from `q` to `p`, for points within the board
/// limit.
pub open spec fn displacement(p: Vector2, q: Vector2) -> Vector2 {
    Vector2 { x: (p.x - q.x) as i32, y: (p.y - q.y) as i32 }
}

/// The vector turned a quarter clockwise.
pub open spec fn perp_cw_of(v: Vector2) -> Vector2 {
    Vector2 { x: v.y, y: (-v.x) as i32 }
}

/// The vector turned a quarter counter-clockwise.
pub open spec fn perp_ccw_of(v: Vector2) -> Vector2 {
    Vector2 { x: (-v.y) as i32, y: v.x }
}

/// `n / sqrt(a) >= j`, for a positive `a`, decided on the squares.
pub open spec fn ratio_at_least(n: int, a: int, j: int) -> bool {
    if j <= 0 {
        n >= 0 || n * n <= j * j * a
    } else {
        n >= 0 && n * n >= j * j * a
    }
}

/// `q` is the largest integer that `n / sqrt(a)` reaches.
pub open spec fn is_floor_ratio(q: int, n: int, a: int) -> bool {
    ratio_at_least(n, a, q) && !ratio_at_least(n, a, q + 1)
}

/// `m` is the real number `o + n / sqrt(a)` with its fraction cut off, that
/// is, rounded toward zero.
pub open spec fn is_truncated_offset(m: int, o: int, n: int, a: int) -> bool {
    if ratio_at_least(n, a, -o) {
        is_floor_ratio(m - o, n, a)
    } else {
        is_floor_ratio(o - m, -n, a)
    }
}

/// `ratio_at_least` is downward closed in its threshold.
pub proof fn lemma_ratio_monotone(n: int, a: int, j: int, k: int)
    requires
        a > 0,
        k <= j,
        ratio_at_least(n, a, j),
    ensures
        ratio_at_least(n, a, k),
{
    if n >= 0 {
        if k > 0 {
            assert(k * k * a <= j * j * a) by (nonlinear_arith)
                requires
                    0 < k <= j,
                    a > 0,
            ;
        }
    } else {
        assert(k * k * a >= j * j * a) by (nonlinear_arith)
            requires
                k <= j <= 0,
                a > 0,
        ;
    }
}

/// The floor of a ratio is the threshold at which `ratio_at_least` turns
/// false, and so at most one number is that floor.
pub proof fn lemma_floor_ratio_decides(q: int, n: int, a: int, j: int)
    requires
        a > 0,
        is_floor_ratio(q, n, a),
    ensures
        ratio_at_least(n, a, j) <==> j <= q,
{
    if j <= q {
        lemma_ratio_monotone(n, a, q, j);
    } else if ratio_at_least(n, a, j) {
        lemma_ratio_monotone(n, a, j, q + 1);
    }
}

/// The largest integer that `n / sqrt(a)` reaches, given the floor square
/// root `k` of the quotient `n * n / a`.
pub open spec fn floor_ratio_from(n: int, a: int, k: int) -> int {
    if n >= 0 {
        k
    } else if k * k * a == n * n {
        -k
    } else {
        -k - 1
    }
}

/// `floor_ratio_from` is the floor of the ratio.
pub proof fn lemma_floor_ratio_from_sqrt(n: int, a: int, k: int)
    requires
        a > 0,
        is_floor_sqrt(k, (n * n) / a),
    ensures
        is_floor_ratio(floor_ratio_from(n, a, k), n, a),
        k * k * a <= n * n,
{
    let nn = n * n;
    let t = nn / a;
    assert(nn >= 0) by (nonlinear_arith)
        requires
            nn == n * n,
    ;
    vstd::arithmetic::div_mod::lemma_fundamental_div_mod(nn, a);
    vstd::arithmetic::div_mod::lemma_mod_bound(nn, a);
    assert(k * k * a <= t * a) by (nonlinear_arith)
        requires
            k * k <= t,
            a > 0,
    ;
    assert((k + 1) * (k + 1) * a >= (t + 1) * a) by (nonlinear_arith)
        requires
            (k + 1) * (k + 1) >= t + 1,
            a > 0,
    ;
    assert((t + 1) * a == a * t + a) by (nonlinear_arith);
    assert(t * a == a * t) by (nonlinear_arith);
    if n >= 0 {
    } else if k * k * a == n * n {
        assert(k >= 1) by (nonlinear_arith)
            requires
                k * k * a == n * n,
                n < 0,
                k >= 0,
        ;
        assert((-k) * (-k) * a == k * k * a) by (nonlinear_arith);
        assert((-k + 1) * (-k + 1) * a < k * k * a) by (nonlinear_arith)
            requires
                k >= 1,
                a > 0,
        ;
    } else {
        assert((-k - 1) * (-k - 1) * a == (k + 1) * (k + 1) * a) by (nonlinear_arith);
        assert((-k) * (-k) * a == k * k * a) by (nonlinear_arith);
    }
}

/// Computes the largest integer that `n / sqrt(a)` reaches.
fn floor_ratio(n: i64, a: u64) -> (q: i64)
    requires
        a > 0,
        -0x8000_0000 <= n <= 0x8000_0000,
    ensures
        is_floor_ratio(q as int, n as int, a as int),
{
    proof {
        lemma_product_bound(n as int, n as int, 0x8000_0000);
        assert(n * n >= 0) by (nonlinear_arith);
    }
    let nn: u64 = (n * n) as u64;
    let k: u32 = isqrt(nn / a);
    proof {
        lemma_floor_ratio_from_sqrt(n as int, a as int, k as int);
        assert(k * k >= 0) by (nonlinear_arith);
        assert(k * k <= k * k * a) by (nonlinear_arith)
            requires
                a >= 1,
                k * k >= 0,
        ;
    }
    let low: u64 = (k as u64) * (k as u64) * a;
    if n >= 0 {
        k as i64
    } else if low == nn {
        -(k as i64)
    } else {
        -(k as i64) - 1
    }
}

/// Where `n * n <= b * b * a`, the ratio `n / sqrt(a)` lies between `-b` and
/// `b`.
proof fn lemma_ratio_size(n: int, a: int, b: int)
    requires
        a > 0,
        b >= 0,
        n * n <= b * b * a,
    ensures
        !ratio_at_least(n, a, b + 1),
        ratio_at_least(n, a, -b),
{
    assert((b + 1) * (b + 1) * a > b * b * a) by (nonlinear_arith)
        requires
            a > 0,
            b >= 0,
    ;
    assert((-b) * (-b) * a == b * b * a) by (nonlinear_arith);
}

/// Computes `o + n / sqrt(a)` with its fraction cut off.
fn truncated_offset(o: i32, n: i64, a: u64, b: i64) -> (m: i64)
    requires
        a > 0,
        -0x4000_0000 <= n <= 0x4000_0000,
        0 <= b <= 0x4000_0000,
        n * n <= b * b * a,
    ensures
        is_truncated_offset(m as int, o as int, n as int, a as int),
        -b <= m - o <= b,
{
    let f: i64 = floor_ratio(n, a);
    proof {
        lemma_floor_ratio_decides(f as int, n as int, a as int, -o);
        lemma_floor_ratio_decides(f as int, n as int, a as int, b + 1);
        lemma_floor_ratio_decides(f as int, n as int, a as int, -b);
        lemma_ratio_size(n as int, a as int, b as int);
    }
    if o as i64 + f >= 0 {
        o as i64 + f
    } else {
        let g: i64 = floor_ratio(-n, a);
        proof {
            assert((-n) * (-n) == n * n) by (nonlinear_arith);
            lemma_floor_ratio_decides(g as int, -n as int, a as int, b + 1);
            lemma_floor_ratio_decides(g as int, -n as int, a as int, -b);
            lemma_ratio_size(-n as int, a as int, b as int);
        }
        o as i64 - g
    }
}

/// The real number `o + n / sqrt(a)` with its fraction cut off.
pub open spec fn truncated_offset_of(o: int, n: int, a: int) -> int {
    choose|m: int| is_truncated_offset(m, o, n, a)
}

/// The point `length` away from `p` in the direction of `dir`, each
/// coordinate with its fraction cut off.
pub open spec fn step_of(p: Vector2, dir: Vector2, length: int) -> Vector2 {
    Vector2 {
        x: truncated_offset_of(p.x as int, length * dir.x, dir.norm_sq()) as i32,
        y: truncated_offset_of(p.y as int, length * dir.y, dir.norm_sq()) as i32,
    }
}

/// Cutting off the fraction of `o + n / sqrt(a)` has one result only.
pub proof fn lemma_truncated_offset_unique(m: int, o: int, n: int, a: int)
    requires
        a > 0,
        is_truncated_offset(m, o, n, a),
    ensures
        truncated_offset_of(o, n, a) == m,
{
    let k = truncated_offset_of(o, n, a);
    assert(is_truncated_offset(k, o, n, a));
    if ratio_at_least(n, a, -o) {
        lemma_floor_ratio_decides(m - o, n, a, k - o);
        lemma_floor_ratio_decides(k - o, n, a, m - o);
    } else {
        lemma_floor_ratio_decides(o - m, -n, a, o - k);
        lemma_floor_ratio_decides(o - k, -n, a, o - m);
    }
}

/// The real number `o + n / sqrt(a)` has a truncation, and where
/// `n * n <= b * b * a` it lies no farther than `b` from `o`.
pub proof fn lemma_truncated_offset_exists(o: int, n: int, a: int, b: int)
    requires
        a > 0,
        b >= 0,
        n * n <= b * b * a,
    ensures
        is_truncated_offset(truncated_offset_of(o, n, a), o, n, a),
        -b <= truncated_offset_of(o, n, a) - o <= b,
{
    assert(n * n >= 0 && (-n) * (-n) == n * n) by (nonlinear_arith);
    vstd::arithmetic::div_mod::lemma_div_pos_is_pos(n * n, a);
    lemma_floor_sqrt_exists((n * n) / a);
    let k = floor_sqrt((n * n) / a);
    lemma_floor_ratio_from_sqrt(n, a, k);
    lemma_floor_ratio_from_sqrt(-n, a, k);
    let f = floor_ratio_from(n, a, k);
    let g = floor_ratio_from(-n, a, k);
    lemma_floor_ratio_decides(f, n, a, -o);
    lemma_floor_ratio_decides(f, n, a, b + 1);
    lemma_floor_ratio_decides(f, n, a, -b);
    lemma_floor_ratio_decides(g, -n, a, b + 1);
    lemma_floor_ratio_decides(g, -n, a, -b);
    lemma_ratio_size(n, a, b);
    lemma_ratio_size(-n, a, b);
    let m = if o + f >= 0 {
        o + f
    } else {
        o - g
    };
    assert(is_truncated_offset(m, o, n, a));
    lemma_truncated_offset_unique(m, o, n, a);
}

/// The coordinates of a step are those of the real point `length` away from
/// `p` in the direction of `dir`, rounded toward zero.
pub proof fn lemma_step_truncates(p: Vector2, dir: Vector2, length: int)
    requires
        p.in_bounds(),
        dir.is_span(),
        dir.norm_sq() > 0,
        0 <= length <= COORD_LIMIT,
    ensures
        is_truncated_offset(
            step_of(p, dir, length).x as int,
            p.x as int,
            length * dir.x,
            dir.norm_sq(),
        ),
        is_truncated_offset(
            step_of(p, dir, length).y as int,
            p.y as int,
            length * dir.y,
            dir.norm_sq(),
        ),
{
    let dx = dir.x as int;
    let dy = dir.y as int;
    assert((length * dx) * (length * dx) <= length * length * (dx * dx + dy * dy))
        by (nonlinear_arith);
    assert((length * dy) * (length * dy) <= length * length * (dx * dx + dy * dy))
        by (nonlinear_arith);
    lemma_truncated_offset_exists(p.x as int, length * dx, dir.norm_sq(), length);
    lemma_truncated_offset_exists(p.y as int, length * dy, dir.norm_sq(), length);
}

impl Vector2 {
    /// Both coordinates lie within the board limit.
    pub open spec fn in_bounds(self) -> bool {
        -COORD_LIMIT <= self.x <= COORD_LIMIT && -COORD_LIMIT <= self.y <= COORD_LIMIT
    }

    /// Both coordinates lie within twice the board limit, as those of the
    /// displacement between two board positions do.
    pub open spec fn is_span(self) -> bool {
        -2 * COORD_LIMIT <= self.x <= 2 * COORD_LIMIT && -2 * COORD_LIMIT <= self.y <= 2
            * COORD_LIMIT
    }

    /// The square of the Euclidean length.
    pub open spec fn norm_sq(self) -> int {
        self.x * self.x + self.y * self.y
    }

    /// The Euclidean length with its fraction cut off.
    pub open spec fn norm(self) -> int {
        floor_sqrt(self.norm_sq())
    }

    /// The square of the Euclidean length.
    pub fn len_sq(self) -> (r: u64)
        ensures
            r == self.norm_sq(),
    {
        let x: i64 = self.x as i64;
        let y: i64 = self.y as i64;
        proof {
            lemma_product_bound(x as int, x as int, 0x8000_0000);
            lemma_product_bound(y as int, y as int, 0x8000_0000);
            assert(x * x >= 0 && y * y >= 0) by (nonlinear_arith);
        }
        let xx: u64 = (x * x) as u64;
        let yy: u64 = (y * y) as u64;
        xx + yy
    }

    /// The Euclidean length with its fraction cut off.
    pub fn len(self) -> (r: u32)
        ensures
            r == self.norm(),
            is_floor_sqrt(r as int, self.norm_sq()),
    {
        isqrt(self.len_sq())
    }

    /// The Euclidean distance to `other` with its fraction cut off.
    pub fn distance_to(self, other: Vector2) -> (r: u32)
        requires
            i32::MIN <= self.x - other.x <= i32::MAX,
            i32::MIN <= self.y - other.y <= i32::MAX,
        ensures
            r == distance(self, other),
    {
        self.sub(other).len()
    }

    /// Componentwise sum.
    pub fn add(self, rhs: Vector2) -> (r: Vector2)
        requires
            i32::MIN <= self.x + rhs.x <= i32::MAX,
            i32::MIN <= self.y + rhs.y <= i32::MAX,
        ensures
            r.x == self.x + rhs.x,
            r.y == self.y + rhs.y,
    {
        Vector2 { x: self.x + rhs.x, y: self.y + rhs.y }
    }

    /// Componentwise difference.
    pub fn sub(self, rhs: Vector2) -> (r: Vector2)
        requires
            i32::MIN <= self.x - rhs.x <= i32::MAX,
            i32::MIN <= self.y - rhs.y <= i32::MAX,
        ensures
            r.x == self.x - rhs.x,
            r.y == self.y - rhs.y,
            r == displacement(self, rhs),
    {
        Vector2 { x: self.x - rhs.x, y: self.y - rhs.y }
    }

    /// The vector scaled by the integer `f`.
    pub fn mul(self, f: i32) -> (r: Vector2)
        requires
            i32::MIN <= self.x * f <= i32::MAX,
            i32::MIN <= self.y * f <= i32::MAX,
        ensures
            r.x == self.x * f,
            r.y == self.y * f,
    {
        Vector2 { x: self.x * f, y: self.y * f }
    }

    /// The inner product.
    pub fn dot(v1: Vector2, v2: Vector2) -> (r: i64)
        requires
            dot_of(v1, v2) <= i64::MAX,
        ensures
            r == dot_of(v1, v2),
    {
        proof {
            lemma_product_bound(v1.x as int, v2.x as int, 0x8000_0000);
            lemma_product_bound(v1.y as int, v2.y as int, 0x8000_0000);
        }
        let a: i128 = (v1.x as i128) * (v2.x as i128);
        let b: i128 = (v1.y as i128) * (v2.y as i128);
        (a + b) as i64
    }

    /// The signed area spanned by `v1` and `v2`.
    pub fn cross(v1: Vector2, v2: Vector2) -> (r: i64)
        requires
            i64::MIN <= cross_of(v1, v2) <= i64::MAX,
        ensures
            r == cross_of(v1, v2),
    {
        proof {
            lemma_product_bound(v1.x as int, v2.y as int, 0x8000_0000);
            lemma_product_bound(v1.y as int, v2.x as int, 0x8000_0000);
        }
        let a: i128 = (v1.x as i128) * (v2.y as i128);
        let b: i128 = (v1.y as i128) * (v2.x as i128);
        (a - b) as i64
    }

    /// The vector turned a quarter clockwise: `(y, -x)`.
    pub fn perp_cw(self) -> (r: Vector2)
        requires
            self.x > i32::MIN,
        ensures
            r.x == self.y,
            r.y == -self.x,
            r == perp_cw_of(self),
    {
        Vector2 { x: self.y, y: -self.x }
    }

    /// The vector turned a quarter counter-clockwise: `(-y, x)`.
    pub fn perp_ccw(self) -> (r: Vector2)
        requires
            self.y > i32::MIN,
        ensures
            r.x == -self.y,
            r.y == self.x,
            r == perp_ccw_of(self),
    {
        Vector2 { x: -self.y, y: self.x }
    }
    /// Decides whether the angle between `v1` and `v2` is less than twenty
    /// degrees.
    pub fn angle_is_below_20_degrees(v1: Vector2, v2: Vector2) -> (r: bool)
        requires
            v1.is_span(),
            v2.is_span(),
        ensures
            r == angle_below_20_degrees(v1, v2),
    {
        proof {
            lemma_product_bound(v1.x as int, v2.x as int, 20_000);
            lemma_product_bound(v1.y as int, v2.y as int, 20_000);
            lemma_product_bound(v1.x as int, v2.y as int, 20_000);
            lemma_product_bound(v1.y as int, v2.x as int, 20_000);
        }
        let d: i64 = Vector2::dot(v1, v2);
        let c: i64 = Vector2::cross(v1, v2);
        if d <= 0 {
            return false;
        }
        proof {
            lemma_product_bound(d as int, d as int, 800_000_000);
            lemma_product_bound(c as int, c as int, 800_000_000);
            assert(d * d >= 0 && c * c >= 0) by (nonlinear_arith);
        }
        let dd: u64 = (d * d) as u64;
        let cc: u64 = (c * c) as u64;
        if 2 * cc >= dd {
            return false;
        }
        proof {
            lemma_product_bound(dd as int, dd as int, 640_000_000_000_000_000);
            lemma_product_bound(cc as int, cc as int, 640_000_000_000_000_000);
            assert(dd * dd >= 0 && cc * cc >= 0) by (nonlinear_arith);
        }
        proof {
            lemma_tangent_cubic_sign(cc as int, dd as int);
        }
        let dd2: u128 = (dd as u128) * (dd as u128);
        let cc2: u128 = (cc as u128) * (cc as u128);
        let p: u128 = cc2 + 27 * dd2;
        let q: u128 = 33 * cc2 + 3 * dd2;
        product_lt(cc, p, dd, q)
    }

    /// The point `length` away from `self` in the direction of `dir`, each
    /// coordinate with its fraction cut off.
    pub fn step_along(self, dir: Vector2, length: i32) -> (r: Vector2)
        requires
            self.in_bounds(),
            dir.is_span(),
            dir.norm_sq() > 0,
            0 <= length <= COORD_LIMIT,
        ensures
            is_truncated_offset(r.x as int, self.x as int, length * dir.x, dir.norm_sq()),
            is_truncated_offset(r.y as int, self.y as int, length * dir.y, dir.norm_sq()),
            r == step_of(self, dir, length as int),
            r.is_span(),
    {
        let a: u64 = dir.len_sq();
        proof {
            lemma_product_bound(length as int, dir.x as int, 20_000);
            lemma_product_bound(length as int, dir.y as int, 20_000);
        }
        let nx: i64 = (length as i64) * (dir.x as i64);
        let ny: i64 = (length as i64) * (dir.y as i64);
        proof {
            let l = length as int;
            let dx = dir.x as int;
            let dy = dir.y as int;
            assert((l * dx) * (l * dx) <= l * l * (dx * dx + dy * dy)) by (nonlinear_arith);
            assert((l * dy) * (l * dy) <= l * l * (dx * dx + dy * dy)) by (nonlinear_arith);
        }
        let x: i64 = truncated_offset(self.x, nx, a, length as i64);
        let y: i64 = truncated_offset(self.y, ny, a, length as i64);
        proof {
            lemma_truncated_offset_unique(x as int, self.x as int, nx as int, a as int);
            lemma_truncated_offset_unique(y as int, self.y as int, ny as int, a as int);
        }
        Vector2 { x: x as i32, y: y as i32 }
    }
}

} // verus!
