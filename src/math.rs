//! Fixed-point helpers shared by the input sampler and the motion controller.
use vstd::prelude::*;

verus! {

/// One unit of length, of speed per second, or a full-strength intent axis.
pub const UNIT: i64 = 1000;

/// A full turn in angle units.
pub const TURN: i64 = 65536;

/// Half a turn in angle units.
pub const HALF_TURN: i64 = 32768;

/// Microseconds in a second.
pub const MICROS_PER_SECOND: i64 = 1_000_000;

pub open spec fn clamp_spec(v: int, lo: int, hi: int) -> int {
    if v < lo {
        lo
    } else if v > hi {
        hi
    } else {
        v
    }
}

/// Restricts `value` to `[min, max]`.
pub fn clamp(value: i64, min: i64, max: i64) -> (r: i64)
    requires
        min <= max,
    ensures
        r == clamp_spec(value as int, min as int, max as int),
        min <= r <= max,
{
    let mut x = value;
    if x < min {
        x = min;
    }
    if x > max {
        x = max;
    }
    x
}

pub open spec fn abs(v: int) -> int {
    if v < 0 {
        -v
    } else {
        v
    }
}

/// `from` moved toward `to` by at most `delta`, never past it.
pub open spec fn move_toward_spec(from: int, to: int, delta: int) -> int {
    if abs(to - from) <= delta {
        to
    } else if to < from {
        from - delta
    } else {
        from + delta
    }
}

/// Steps `from` toward `to` by at most `delta` without overshooting.
pub fn move_toward(from: i64, to: i64, delta: i64) -> (r: i64)
    requires
        delta >= 0,
    ensures
        r == move_toward_spec(from as int, to as int, delta as int),
{
    let len: i128 = to as i128 - from as i128;
    let dist: i128 = if len < 0 { -len } else { len };
    if dist <= delta as i128 {
        to
    } else if len < 0 {
        from - delta
    } else {
        from + delta
    }
}

/// Rust's division, rounding toward zero, for a positive divisor.
pub open spec fn trunc_div(p: int, d: int) -> int {
    if p >= 0 {
        p / d
    } else {
        -((-p) / d)
    }
}

/// `v * num / den`, rounded toward zero.
pub open spec fn scaled(v: int, num: int, den: int) -> int {
    trunc_div(v * num, den)
}

proof fn lemma_trunc_div_bounds(p: int, d: int)
    requires
        d > 0,
    ensures
        abs(trunc_div(p, d)) * d <= abs(p),
        abs(p) < (abs(trunc_div(p, d)) + 1) * d,
        abs(trunc_div(p, d)) <= abs(p),
        p >= 0 ==> trunc_div(p, d) >= 0,
        p <= 0 ==> trunc_div(p, d) <= 0,
{
    let a = abs(p);
    vstd::arithmetic::div_mod::lemma_fundamental_div_mod(a, d);
    vstd::arithmetic::div_mod::lemma_mod_bound(a, d);
    vstd::arithmetic::div_mod::lemma_div_pos_is_pos(a, d);
    vstd::arithmetic::div_mod::lemma_div_is_ordered_by_denominator(a, 1, d);
    assert(a / 1 == a) by {
        vstd::arithmetic::div_mod::lemma_div_basics(a);
    }
    assert(abs(trunc_div(p, d)) == a / d);
    assert((a / d) * d <= a) by (nonlinear_arith)
        requires
            a == d * (a / d) + a % d,
            a % d >= 0,
    ;
    assert(a < (a / d + 1) * d) by (nonlinear_arith)
        requires
            a == d * (a / d) + a % d,
            a % d < d,
    ;
}

/// Multiplies by `num / den`, rounding toward zero.
pub fn scale(v: i64, num: i64, den: i64) -> (r: i64)
    requires
        num >= 0,
        den > 0,
        -(i64::MAX as int) <= v * num <= i64::MAX,
    ensures
        r == scaled(v as int, num as int, den as int),
{
    let p: i64 = v * num;
    proof {
        lemma_trunc_div_bounds(p as int, den as int);
    }
    if p >= 0 {
        p / den
    } else {
        -((-p) / den)
    }
}

/// The angle `a` brought into `[0, TURN)`.
pub open spec fn wrapped(a: int) -> int {
    a % (TURN as int)
}

/// Brings an angle into `[0, TURN)` without changing its direction.
pub fn wrap_angle(a: i64) -> (r: i64)
    requires
        a > i64::MIN,
    ensures
        r == wrapped(a as int),
        0 <= r < TURN,
{
    proof {
        vstd::arithmetic::div_mod::lemma_mod_bound(a as int, TURN as int);
    }
    if a >= 0 {
        a % TURN
    } else {
        let m: i64 = (-a) % TURN;
        proof {
            let t = TURN as int;
            let na = -(a as int);
            vstd::arithmetic::div_mod::lemma_fundamental_div_mod(na, t);
            vstd::arithmetic::div_mod::lemma_mod_bound(na, t);
            vstd::arithmetic::div_mod::lemma_fundamental_div_mod(a as int, t);
            let q = na / t;
            if m == 0 {
                assert(a as int == t * (-q));
                vstd::arithmetic::div_mod::lemma_mod_multiples_basic(-q, t);
                assert((a as int) % t == 0) by (nonlinear_arith)
                    requires
                        a as int == t * (-q),
                        (-q * t) % t == 0,
                ;
            } else {
                assert(a as int == t * (-q - 1) + (t - m));
                vstd::arithmetic::div_mod::lemma_mod_multiples_vanish(-q - 1, t - m, t);
                vstd::arithmetic::div_mod::lemma_small_mod((t - m) as nat, t as nat);
                assert((a as int) % t == t - m) by (nonlinear_arith)
                    requires
                        a as int == t * (-q - 1) + (t - m),
                        (t * (-q - 1) + (t - m)) % t == (t - m) % t,
                        (t - m) % t == t - m,
                ;
            }
        }
        if m == 0 {
            0
        } else {
            TURN - m
        }
    }
}

/// The signed angle from `from` to `to` along the shorter way round, in
/// `[-HALF_TURN, HALF_TURN)`.
pub open spec fn shortest_turn(from: int, to: int) -> int {
    let d = wrapped(to - from);
    if d >= HALF_TURN {
        d - TURN
    } else {
        d
    }
}

/// The angle `weight` thousandths of the way from `from` to `to` along the
/// shorter way round, in `[0, TURN)`.
pub open spec fn lerp_angle_spec(from: int, to: int, weight: int) -> int {
    wrapped(from + scaled(shortest_turn(from, to), weight, UNIT as int))
}

/// Interpolates between two angles along the shorter way round; `weight` is
/// in thousandths.
pub fn lerp_angle(from: i64, to: i64, weight: i64) -> (r: i64)
    requires
        0 <= from < TURN,
        0 <= to < TURN,
        0 <= weight <= UNIT,
    ensures
        r == lerp_angle_spec(from as int, to as int, weight as int),
        0 <= r < TURN,
{
    let d0: i64 = wrap_angle(to - from);
    let d: i64 = if d0 >= HALF_TURN { d0 - TURN } else { d0 };
    proof {
        assert(-HALF_TURN <= d < HALF_TURN);
        assert(-(i64::MAX as int) <= d * weight <= i64::MAX) by (nonlinear_arith)
            requires
                -32768 <= d < 32768,
                0 <= weight <= 1000,
        ;
        lemma_trunc_div_bounds(d * weight, UNIT as int);
        assert(abs(d * weight) <= 32768 * 1000) by (nonlinear_arith)
            requires
                -32768 <= d < 32768,
                0 <= weight <= 1000,
        ;
    }
    let step: i64 = scale(d, weight, UNIT);
    wrap_angle(from + step)
}

/// A horizontal or planar vector in thousandths.
#[derive(Clone, Copy, Debug, PartialEq, Eq, Structural)]
pub struct Vec2 {
    pub x: i64,
    pub y: i64,
}

/// A velocity in thousandths of a unit per second; `y` points up.
#[derive(Clone, Copy, Debug, PartialEq, Eq, Structural)]
pub struct Vec3 {
    pub x: i64,
    pub y: i64,
    pub z: i64,
}

/// The largest coordinate accepted where a vector's length is taken.
pub const COORD_LIMIT: i64 = 1_000_000;

impl Vec2 {
    pub open spec fn len_sq(self) -> int {
        self.x * self.x + self.y * self.y
    }

    pub open spec fn bounded(self) -> bool {
        -COORD_LIMIT <= self.x <= COORD_LIMIT && -COORD_LIMIT <= self.y <= COORD_LIMIT
    }

    pub open spec fn is_zero(self) -> bool {
        self.x == 0 && self.y == 0
    }
}

/// `r` is the least non-negative integer whose square reaches `n`.
pub open spec fn is_ceil_sqrt(n: int, r: int) -> bool {
    r >= 0 && r * r >= n && (r == 0 || (r - 1) * (r - 1) < n)
}

/// The least non-negative integer whose square is at least `n`.
pub open spec fn ceil_sqrt_spec(n: int) -> int {
    choose|r: int| is_ceil_sqrt(n, r)
}

proof fn lemma_ceil_sqrt_unique(n: int, r: int)
    requires
        is_ceil_sqrt(n, r),
    ensures
        ceil_sqrt_spec(n) == r,
{
    let c = ceil_sqrt_spec(n);
    assert(is_ceil_sqrt(n, c));
    if c < r {
        assert((r - 1) * (r - 1) >= c * c) by (nonlinear_arith)
            requires
                0 <= c <= r - 1,
        ;
    } else if r < c {
        assert((c - 1) * (c - 1) >= r * r) by (nonlinear_arith)
            requires
                0 <= r <= c - 1,
        ;
    }
}

/// The largest argument `ceil_sqrt` accepts.
const SQRT_ARG_LIMIT: i128 = 2_000_000_000_000_000_000_000_000;

/// The least non-negative integer whose square is at least `n`.
fn ceil_sqrt(n: i128) -> (r: i128)
    requires
        0 <= n <= SQRT_ARG_LIMIT,
    ensures
        r == ceil_sqrt_spec(n as int),
        is_ceil_sqrt(n as int, r as int),
        r <= 2_000_000_000_000,
{
    if n == 0 {
        proof {
            lemma_ceil_sqrt_unique(0, 0);
        }
        return 0;
    }
    let mut lo: i128 = 0;
    let mut hi: i128 = 2_000_000_000_000;
    assert(hi * hi >= n) by (nonlinear_arith)
        requires
            hi == 2000000000000,
            n <= 2000000000000000000000000,
    ;
    while hi - lo > 1
        invariant
            0 <= lo < hi <= 2_000_000_000_000,
            lo * lo < n,
            hi * hi >= n,
        decreases hi - lo,
    {
        let mid: i128 = lo + (hi - lo) / 2;
        assert(mid * mid <= 4000000000000000000000000) by (nonlinear_arith)
            requires
                0 <= mid <= 2000000000000,
        ;
        if mid * mid >= n {
            hi = mid;
        } else {
            lo = mid;
        }
    }
    proof {
        lemma_ceil_sqrt_unique(n as int, hi as int);
    }
    hi
}

/// The factor by which a length is refined before it is rounded.
pub const PRECISION: i64 = 1_000_000;

/// The length of a vector whose squared length is `n`, in millionths,
/// rounded up.
pub open spec fn fine_length(n: int) -> int {
    ceil_sqrt_spec(n * PRECISION * PRECISION)
}

/// The coordinate `c` of a vector with squared length `n`, divided by that
/// length and multiplied by `num`, rounded toward zero; the length is taken
/// to a millionth.
pub open spec fn per_length(c: int, num: int, n: int) -> int {
    trunc_div(c * num * PRECISION, fine_length(n))
}

/// The vector `v`, of unit length or longer, resized to length `num`.
pub open spec fn resized(v: Vec2, num: int) -> Vec2 {
    Vec2 {
        x: per_length(v.x as int, num, v.len_sq()) as i64,
        y: per_length(v.y as int, num, v.len_sq()) as i64,
    }
}

/// Where each coordinate is at most one short of a vector of length `s`,
/// the vector is at least `s - 3` long.
pub proof fn lemma_short_by_rounding(a: int, b: int, s: int)
    requires
        s >= 3,
        (abs(a) + 1) * (abs(a) + 1) + (abs(b) + 1) * (abs(b) + 1) > (s - 1) * (s - 1),
    ensures
        a * a + b * b >= (s - 3) * (s - 3),
{
    let (x, y, t) = (abs(a), abs(b), s - 3);
    assert(a * a == x * x && b * b == y * y) by (nonlinear_arith)
        requires
            x == abs(a),
            y == abs(b),
    ;
    if x * x + y * y < t * t {
        assert((x + y) * (x + y) <= 2 * (x * x + y * y)) by (nonlinear_arith);
        assert(2 * (x + y) < 3 * t) by (nonlinear_arith)
            requires
                (x + y) * (x + y) < 2 * (t * t),
                x >= 0,
                y >= 0,
                t >= 0,
        ;
        assert((x + 1) * (x + 1) + (y + 1) * (y + 1) == x * x + y * y + 2 * (x + y) + 2)
            by (nonlinear_arith);
        assert((s - 1) * (s - 1) == t * t + 4 * t + 4) by (nonlinear_arith)
            requires
                t == s - 3,
        ;
    }
}

proof fn lemma_component_bounds(c: int, num: int, l: int, out: int)
    requires
        l > 0,
        num > 0,
        out == trunc_div(c * num * PRECISION, l),
    ensures
        out * out * (l * l) <= c * c * (num * num) * (PRECISION * PRECISION),
        (c * c) * (num * num) * (PRECISION * PRECISION) < ((abs(out) + 1) * (abs(out) + 1))
            * (l * l),
        out * c >= 0,
{
    let p = c * num * PRECISION;
    lemma_trunc_div_bounds(p, l);
    let a = abs(out);
    let b = abs(p);
    assert(out * out == a * a) by (nonlinear_arith)
        requires
            a == abs(out),
    ;
    assert(b * b == c * c * (num * num) * (PRECISION * PRECISION)) by (nonlinear_arith)
        requires
            b == abs(p),
            p == c * num * PRECISION,
    ;
    assert((a * l) * (a * l) <= b * b) by (nonlinear_arith)
        requires
            0 <= a * l <= b,
    ;
    assert(b * b < ((a + 1) * l) * ((a + 1) * l)) by (nonlinear_arith)
        requires
            0 <= b < (a + 1) * l,
    ;
    assert(out * out * (l * l) == (a * l) * (a * l)) by (nonlinear_arith)
        requires
            out * out == a * a,
    ;
    assert(((a + 1) * l) * ((a + 1) * l) == ((a + 1) * (a + 1)) * (l * l)) by (nonlinear_arith);
    assert(c >= 0 ==> p >= 0) by (nonlinear_arith)
        requires
            p == c * num * PRECISION,
            num > 0,
    ;
    assert(c <= 0 ==> p <= 0) by (nonlinear_arith)
        requires
            p == c * num * PRECISION,
            num > 0,
    ;
    assert(out * c >= 0) by (nonlinear_arith)
        requires
            c >= 0 ==> p >= 0,
            c <= 0 ==> p <= 0,
            p >= 0 ==> out >= 0,
            p <= 0 ==> out <= 0,
    ;
}

/// Resizes `v`, of unit length or longer, to length `num`: each coordinate
/// is divided by the length, taken to a millionth, and rounded toward zero.
/// The result is never longer than `num` and short of it by rounding only.
pub fn resize(v: Vec2, num: i64) -> (r: Vec2)
    requires
        v.bounded(),
        v.len_sq() >= UNIT * UNIT,
        0 < num <= 1_000_000_000,
    ensures
        r == resized(v, num as int),
        r.len_sq() <= num * num,
        (abs(r.x as int) + 1) * (abs(r.x as int) + 1) + (abs(r.y as int) + 1) * (abs(
            r.y as int,
        ) + 1) > (num - 1) * (num - 1),
        num >= 3 ==> r.len_sq() >= (num - 3) * (num - 3),
        r.x * v.x >= 0,
        r.y * v.y >= 0,
{
    assert(0 <= v.x * v.x <= 1000000000000 && 0 <= v.y * v.y <= 1000000000000)
        by (nonlinear_arith)
        requires
            -1000000 <= v.x <= 1000000,
            -1000000 <= v.y <= 1000000,
    ;
    let n: i128 = (v.x as i128) * (v.x as i128) + (v.y as i128) * (v.y as i128);
    let k: i128 = PRECISION as i128;
    assert(n * (k * k) <= 2000000000000000000000000) by (nonlinear_arith)
        requires
            0 <= n <= 2000000000000,
            k == 1000000,
    ;
    let l: i128 = ceil_sqrt(n * (k * k));
    let ghost ni = v.len_sq();
    proof {
        assert(n == ni);
        assert(n * (k * k) == ni * 1000000000000);
        assert(is_ceil_sqrt(ni * 1000000000000, l as int));
        assert(l >= 1_000_000_000) by (nonlinear_arith)
            requires
                l >= 0,
                l * l >= ni * 1000000000000,
                ni >= 1000000,
        ;
        assert(-1000000000000000000000 <= v.x * num * PRECISION <= 1000000000000000000000
            && -1000000000000000000000 <= v.y * num * PRECISION <= 1000000000000000000000)
            by (nonlinear_arith)
            requires
                -1000000 <= v.x <= 1000000,
                -1000000 <= v.y <= 1000000,
                0 < num <= 1000000000,
        ;
    }
    let px: i128 = (v.x as i128) * (num as i128) * k;
    let py: i128 = (v.y as i128) * (num as i128) * k;
    let qx: i128 = if px >= 0 { px / l } else { -((-px) / l) };
    let qy: i128 = if py >= 0 { py / l } else { -((-py) / l) };
    proof {
        let (li, nm, kk) = (l as int, num as int, 1000000000000int);
        lemma_component_bounds(v.x as int, nm, li, qx as int);
        lemma_component_bounds(v.y as int, nm, li, qy as int);
        let (ax, ay) = (abs(qx as int), abs(qy as int));
        let s = qx * qx + qy * qy;
        assert(s * (li * li) <= ni * (nm * nm) * kk) by (nonlinear_arith)
            requires
                qx * qx * (li * li) <= v.x * v.x * (nm * nm) * kk,
                qy * qy * (li * li) <= v.y * v.y * (nm * nm) * kk,
                s == qx * qx + qy * qy,
                ni == v.x * v.x + v.y * v.y,
        ;
        assert(ni * (nm * nm) * kk <= (li * li) * (nm * nm)) by (nonlinear_arith)
            requires
                ni * kk <= li * li,
                nm > 0,
        ;
        assert(s <= nm * nm) by (nonlinear_arith)
            requires
                s * (li * li) <= (li * li) * (nm * nm),
                li > 0,
        ;
        assert(-1000000000 <= qx <= 1000000000 && -1000000000 <= qy <= 1000000000)
            by (nonlinear_arith)
            requires
                qx * qx + qy * qy <= nm * nm,
                0 < nm <= 1000000000,
        ;
        let u = (ax + 1) * (ax + 1) + (ay + 1) * (ay + 1);
        assert(ni * (nm * nm) * kk < u * (li * li)) by (nonlinear_arith)
            requires
                (v.x * v.x) * (nm * nm) * kk < ((ax + 1) * (ax + 1)) * (li * li),
                (v.y * v.y) * (nm * nm) * kk < ((ay + 1) * (ay + 1)) * (li * li),
                u == (ax + 1) * (ax + 1) + (ay + 1) * (ay + 1),
                ni == v.x * v.x + v.y * v.y,
        ;
        assert((li - 1) * (li - 1) * (nm * nm) <= ni * (nm * nm) * kk) by (nonlinear_arith)
            requires
                (li - 1) * (li - 1) < ni * kk,
        ;
        assert((li - 1) * nm >= (nm - 1) * li) by (nonlinear_arith)
            requires
                li >= nm,
        ;
        assert((nm - 1) * (nm - 1) * (li * li) <= (li - 1) * (li - 1) * (nm * nm))
            by (nonlinear_arith)
            requires
                (li - 1) * nm >= (nm - 1) * li,
                (nm - 1) * li >= 0,
        ;
        assert(u * (li * li) > (nm - 1) * (nm - 1) * (li * li));
        assert(u > (nm - 1) * (nm - 1)) by (nonlinear_arith)
            requires
                u * (li * li) > (nm - 1) * (nm - 1) * (li * li),
                li > 0,
        ;
        if nm >= 3 {
            lemma_short_by_rounding(qx as int, qy as int, nm);
        }
        assert(fine_length(ni) == li);
    }
    Vec2 { x: qx as i64, y: qy as i64 }
}

/// The vector `v` resized to unit length when it is longer than that (see
/// `resized`); a vector no longer than that stays as it is.
pub open spec fn capped(v: Vec2) -> Vec2 {
    if v.len_sq() <= UNIT * UNIT {
        v
    } else {
        resized(v, UNIT as int)
    }
}

/// Shortens `v` to unit length, up to rounding, when it is longer than that;
/// a shorter vector is returned unchanged.
pub fn cap_to_unit(v: Vec2) -> (r: Vec2)
    requires
        v.bounded(),
    ensures
        r == capped(v),
        r.len_sq() <= UNIT * UNIT,
        v.len_sq() > UNIT * UNIT ==> r.len_sq() >= (UNIT - 3) * (UNIT - 3),
        r.x * v.x >= 0,
        r.y * v.y >= 0,
{
    assert(0 <= v.x * v.x <= 1000000000000 && 0 <= v.y * v.y <= 1000000000000)
        by (nonlinear_arith)
        requires
            -1000000 <= v.x <= 1000000,
            -1000000 <= v.y <= 1000000,
    ;
    let n: i64 = v.x * v.x + v.y * v.y;
    if n <= UNIT * UNIT {
        assert(v.x * v.x >= 0 && v.y * v.y >= 0) by (nonlinear_arith);
        return v;
    }
    resize(v, UNIT)
}

/// A non-negative product scaled down by a positive divisor stays under
/// the product's bound.
pub proof fn lemma_scaled_nonneg_bound(v: int, num: int, den: int, bound: int)
    requires
        den > 0,
        0 <= v * num <= bound,
    ensures
        0 <= scaled(v, num, den) <= bound,
{
    lemma_trunc_div_bounds(v * num, den);
}

/// Scaling by `num / UNIT` at most scales the square by `(num / UNIT)^2`.
pub proof fn lemma_scaled_square(c: int, num: int, out: int)
    requires
        num > 0,
        out == scaled(c, num, UNIT as int),
    ensures
        out * out * 1000000 <= c * c * (num * num),
{
    lemma_trunc_div_bounds(c * num, 1000);
    let a = abs(out);
    let b = abs(c * num);
    assert(a * 1000 <= b);
    assert((a * 1000) * (a * 1000) <= b * b) by (nonlinear_arith)
        requires
            0 <= a * 1000 <= b,
    ;
    assert(out * out == a * a) by (nonlinear_arith)
        requires
            a == abs(out),
    ;
    assert(b * b == c * c * (num * num)) by (nonlinear_arith)
        requires
            b == abs(c * num),
    ;
    assert(out * out * 1000000 == (a * 1000) * (a * 1000)) by (nonlinear_arith)
        requires
            out * out == a * a,
    ;
}

} // verus!
