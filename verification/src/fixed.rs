//! Fixed-point arithmetic for world coordinates.
//!
//! A coordinate is an `i32` counting sub-units, a millionth of a world
//! unit each, which spans a little over 2147 units to either side of the
//! origin. Sums that leave the `i32` range saturate at its ends, so every
//! movement rule is total.

use vstd::prelude::*;

verus! {

/// Sub-units per world unit.
pub const UNIT: i32 = 1_000_000;

/// The nearest `i32` to `v`.
pub open spec fn clamp_coord(v: int) -> int {
    if v < -0x8000_0000 {
        -0x8000_0000
    } else if v > 0x7fff_ffff {
        0x7fff_ffff
    } else {
        v
    }
}

/// Absolute value.
pub open spec fn magnitude(v: int) -> int {
    if v < 0 {
        -v
    } else {
        v
    }
}

/// Squared Euclidean length of the vector `(dx, dy)`.
pub open spec fn length_sq(dx: int, dy: int) -> int {
    dx * dx + dy * dy
}

/// `r` is the integer square root of `n`, rounded down.
pub open spec fn is_floor_sqrt(n: int, r: int) -> bool {
    0 <= r && r * r <= n && n < (r + 1) * (r + 1)
}

/// The integer square root of `n`, rounded down.
pub open spec fn floor_sqrt(n: int) -> int {
    choose|r: int| is_floor_sqrt(n, r)
}

/// One axis of a vector rescaled from length `len` to length `speed`,
/// rounded toward zero.
pub open spec fn scale_axis(d: int, speed: int, len: int) -> int {
    if d >= 0 {
        (d * speed) / len
    } else {
        -(((-d) * speed) / len)
    }
}

/// The square root of `n`, rounded up.
pub open spec fn ceil_sqrt(n: int) -> int {
    let r = floor_sqrt(n);
    if r * r == n {
        r
    } else {
        r + 1
    }
}

/// The step of length `speed` along `(dx, dy)`. The length of the vector
/// is rounded up and each axis of the step is rounded toward zero, so the
/// step is never longer than `speed`. The zero vector has no direction and
/// maps to itself.
pub open spec fn step_toward(dx: int, dy: int, speed: int) -> (int, int) {
    let len = ceil_sqrt(length_sq(dx, dy));
    if len == 0 {
        (0, 0)
    } else {
        (scale_axis(dx, speed, len), scale_axis(dy, speed, len))
    }
}

/// The coordinate reached from `x` by the step `d`.
pub open spec fn advance(x: int, d: int) -> int {
    clamp_coord(x + d)
}

/// A number has at most one rounded-down square root.
pub proof fn lemma_floor_sqrt_unique(n: int, r1: int, r2: int)
    requires
        is_floor_sqrt(n, r1),
        is_floor_sqrt(n, r2),
    ensures
        r1 == r2,
{
    if r1 < r2 {
        assert((r1 + 1) * (r1 + 1) <= r2 * r2) by (nonlinear_arith)
            requires
                0 <= r1,
                r1 + 1 <= r2,
        ;
    } else if r2 < r1 {
        assert((r2 + 1) * (r2 + 1) <= r1 * r1) by (nonlinear_arith)
            requires
                0 <= r2,
                r2 + 1 <= r1,
        ;
    }
}

/// `floor_sqrt` is the rounded-down square root wherever one exists.
pub proof fn lemma_floor_sqrt_is(n: int, r: int)
    requires
        is_floor_sqrt(n, r),
    ensures
        floor_sqrt(n) == r,
{
    let c = floor_sqrt(n);
    assert(is_floor_sqrt(n, c));
    lemma_floor_sqrt_unique(n, c, r);
}

/// Every natural number has a rounded-down square root.
pub proof fn lemma_floor_sqrt_exists(n: nat)
    ensures
        is_floor_sqrt(n as int, floor_sqrt(n as int)),
    decreases n,
{
    if n == 0 {
        assert(is_floor_sqrt(0, 0));
    } else {
        lemma_floor_sqrt_exists((n - 1) as nat);
        let r = floor_sqrt(n - 1);
        if (r + 1) * (r + 1) <= n {
            assert(n < (r + 2) * (r + 2)) by (nonlinear_arith)
                requires
                    0 <= r,
                    n - 1 < (r + 1) * (r + 1),
            ;
            assert(is_floor_sqrt(n as int, r + 1));
        } else {
            assert(is_floor_sqrt(n as int, r));
        }
    }
}

/// The rounded-up square root of `n` is the least number whose square
/// is at least `n`.
pub proof fn lemma_ceil_sqrt(n: int)
    requires
        0 <= n,
    ensures
        0 <= ceil_sqrt(n),
        n <= ceil_sqrt(n) * ceil_sqrt(n),
        ceil_sqrt(n) > 0 ==> (ceil_sqrt(n) - 1) * (ceil_sqrt(n) - 1) < n,
        floor_sqrt(n) <= ceil_sqrt(n) <= floor_sqrt(n) + 1,
        n == 0 <==> ceil_sqrt(n) == 0,
{
    lemma_floor_sqrt_exists(n as nat);
    let r = floor_sqrt(n);
    assert((r + 1) * (r + 1) == r * r + 2 * r + 1) by (nonlinear_arith);
    assert((r - 1) * (r - 1) == r * r - 2 * r + 1) by (nonlinear_arith);
    if r == 0 {
        assert(r * r == 0) by (nonlinear_arith)
            requires
                r == 0,
        ;
    }
}

/// Neither axis of a vector is longer than the vector.
pub proof fn lemma_axis_within_length(dx: int, dy: int, len: int)
    requires
        0 <= len,
        length_sq(dx, dy) <= len * len,
    ensures
        magnitude(dx) <= len,
        magnitude(dy) <= len,
{
    assert(magnitude(dx) * magnitude(dx) == dx * dx) by (nonlinear_arith);
    assert(magnitude(dy) * magnitude(dy) == dy * dy) by (nonlinear_arith);
    assert(dx * dx >= 0 && dy * dy >= 0) by (nonlinear_arith);
    let ax = magnitude(dx);
    let ay = magnitude(dy);
    if ax > len {
        assert(ax * ax > len * len) by (nonlinear_arith)
            requires
                0 <= len,
                ax >= len + 1,
        ;
    }
    if ay > len {
        assert(ay * ay > len * len) by (nonlinear_arith)
            requires
                0 <= len,
                ay >= len + 1,
        ;
    }
}

/// A rescaled axis keeps its sign and is no longer than `speed`; it is no
/// longer than the axis itself when `speed` does not exceed `len`.
pub proof fn lemma_scale_axis_bounds(d: int, speed: int, len: int)
    requires
        0 <= speed,
        0 < len,
        magnitude(d) <= len,
    ensures
        magnitude(scale_axis(d, speed, len)) <= speed,
        speed <= len ==> magnitude(scale_axis(d, speed, len)) <= magnitude(d),
        d >= 0 ==> scale_axis(d, speed, len) >= 0,
        d <= 0 ==> scale_axis(d, speed, len) <= 0,
{
    let a = magnitude(d);
    let q = (a * speed) / len;
    assert(0 <= q && q <= speed && (speed <= len ==> q <= a) && (a == 0 ==> q == 0)) by (nonlinear_arith)
        requires
            0 <= a,
            a <= len,
            0 <= speed,
            0 < len,
            q == (a * speed) / len,
    ;
    if d >= 0 {
        assert(scale_axis(d, speed, len) == q);
    } else {
        assert(scale_axis(d, speed, len) == -q);
    }
}

/// One axis of a step, squared, against the axis of the vector.
proof fn lemma_axis_square(a: int, speed: int, len: int, q: int)
    requires
        0 <= a,
        0 <= speed,
        0 < len,
        q == (a * speed) / len,
    ensures
        0 <= q,
        (q * q) * (len * len) <= (a * a) * (speed * speed),
{
    assert(0 <= q && q * len <= a * speed) by (nonlinear_arith)
        requires
            0 <= a,
            0 <= speed,
            0 < len,
            q == (a * speed) / len,
    ;
    let u = q * len;
    let v = a * speed;
    assert(0 <= u) by (nonlinear_arith)
        requires
            0 <= q,
            0 < len,
            u == q * len,
    ;
    assert(u * u <= v * v) by (nonlinear_arith)
        requires
            0 <= u <= v,
    ;
    assert(u * u == (q * q) * (len * len)) by (nonlinear_arith)
        requires
            u == q * len,
    ;
    assert(v * v == (a * a) * (speed * speed)) by (nonlinear_arith)
        requires
            v == a * speed,
    ;
}

/// What holds of a step. It points the way of the vector on each axis. It
/// is no longer than `speed`, on each axis and as a whole. And where the
/// vector is at least `speed` long, it is no longer than the vector on
/// either axis, so that the step does not pass the vector's end.
pub proof fn lemma_step_toward(dx: int, dy: int, speed: int)
    requires
        0 <= speed,
    ensures
        magnitude(step_toward(dx, dy, speed).0) <= speed,
        magnitude(step_toward(dx, dy, speed).1) <= speed,
        length_sq(step_toward(dx, dy, speed).0, step_toward(dx, dy, speed).1) <= speed * speed,
        dx >= 0 ==> step_toward(dx, dy, speed).0 >= 0,
        dx <= 0 ==> step_toward(dx, dy, speed).0 <= 0,
        dy >= 0 ==> step_toward(dx, dy, speed).1 >= 0,
        dy <= 0 ==> step_toward(dx, dy, speed).1 <= 0,
        speed * speed <= length_sq(dx, dy) ==> magnitude(step_toward(dx, dy, speed).0)
            <= magnitude(dx) && magnitude(step_toward(dx, dy, speed).1) <= magnitude(dy),
{
    let n = length_sq(dx, dy);
    assert(dx * dx >= 0 && dy * dy >= 0) by (nonlinear_arith);
    assert(speed * speed >= 0) by (nonlinear_arith)
        requires
            0 <= speed,
    ;
    lemma_ceil_sqrt(n);
    let len = ceil_sqrt(n);
    if len > 0 {
        lemma_axis_within_length(dx, dy, len);
        lemma_scale_axis_bounds(dx, speed, len);
        lemma_scale_axis_bounds(dy, speed, len);
        let a = magnitude(dx);
        let b = magnitude(dy);
        let qx = (a * speed) / len;
        let qy = (b * speed) / len;
        let sx = scale_axis(dx, speed, len);
        let sy = scale_axis(dy, speed, len);
        assert(sx == qx || sx == -qx);
        assert(sy == qy || sy == -qy);
        assert(sx * sx == qx * qx) by (nonlinear_arith)
            requires
                sx == qx || sx == -qx,
        ;
        assert(sy * sy == qy * qy) by (nonlinear_arith)
            requires
                sy == qy || sy == -qy,
        ;
        assert(a * a == dx * dx) by (nonlinear_arith)
            requires
                a == dx || a == -dx,
        ;
        assert(b * b == dy * dy) by (nonlinear_arith)
            requires
                b == dy || b == -dy,
        ;
        lemma_axis_square(a, speed, len, qx);
        lemma_axis_square(b, speed, len, qy);
        let ll = len * len;
        let ss = speed * speed;
        let qq = qx * qx + qy * qy;
        assert(0 < ll) by (nonlinear_arith)
            requires
                0 < len,
                ll == len * len,
        ;
        assert(qq * ll <= (a * a + b * b) * ss) by (nonlinear_arith)
            requires
                (qx * qx) * ll <= (a * a) * ss,
                (qy * qy) * ll <= (b * b) * ss,
                qq == qx * qx + qy * qy,
        ;
        assert((a * a + b * b) * ss <= ll * ss) by (nonlinear_arith)
            requires
                a * a + b * b <= ll,
                0 <= ss,
        ;
        assert(qq <= ss) by (nonlinear_arith)
            requires
                qq * ll <= ll * ss,
                0 < ll,
        ;
        assert(length_sq(sx, sy) == qq);
        assert(step_toward(dx, dy, speed) == (sx, sy));
        if ss <= n && speed > len {
            // A speed above `len` would have a square above `n`.
            assert(ss > ll) by (nonlinear_arith)
                requires
                    0 < len,
                    len + 1 <= speed,
                    ss == speed * speed,
                    ll == len * len,
            ;
        }
    } else {
        assert(step_toward(dx, dy, speed) == (0int, 0int));
        assert(length_sq(0, 0) == 0) by (nonlinear_arith);
    }
}

/// How close a step is to the exact one. On each axis the step falls
/// short of the axis of the vector, rescaled by `speed / len`, by less
/// than one sub-unit; and `len` exceeds the true length of the vector by
/// less than one.
pub proof fn lemma_step_is_close(dx: int, dy: int, speed: int)
    requires
        0 <= speed,
        dx != 0 || dy != 0,
    ensures
        ({
            let len = ceil_sqrt(length_sq(dx, dy));
            let step = step_toward(dx, dy, speed);
            &&& 0 < len
            &&& (len - 1) * (len - 1) < length_sq(dx, dy) <= len * len
            &&& magnitude(step.0) * len <= magnitude(dx) * speed < (magnitude(step.0) + 1) * len
            &&& magnitude(step.1) * len <= magnitude(dy) * speed < (magnitude(step.1) + 1) * len
        }),
{
    let n = length_sq(dx, dy);
    assert(dx * dx >= 0 && dy * dy >= 0) by (nonlinear_arith);
    assert(n > 0) by (nonlinear_arith)
        requires
            n == dx * dx + dy * dy,
            dx != 0 || dy != 0,
    ;
    lemma_ceil_sqrt(n);
    let len = ceil_sqrt(n);
    let a = magnitude(dx);
    let b = magnitude(dy);
    let qx = (a * speed) / len;
    let qy = (b * speed) / len;
    assert(0 <= qx && qx * len <= a * speed < (qx + 1) * len) by (nonlinear_arith)
        requires
            0 <= a,
            0 <= speed,
            0 < len,
            qx == (a * speed) / len,
    ;
    assert(0 <= qy && qy * len <= b * speed < (qy + 1) * len) by (nonlinear_arith)
        requires
            0 <= b,
            0 <= speed,
            0 < len,
            qy == (b * speed) / len,
    ;
    assert(magnitude(scale_axis(dx, speed, len)) == qx);
    assert(magnitude(scale_axis(dy, speed, len)) == qy);
}

/// A step along a vector that is at least `speed` long is `speed` long
/// to within the rounding: it is no longer than `speed`, and grown by one
/// sub-unit on each axis it is longer than `speed - 1`.
pub proof fn lemma_step_is_nearly_full(dx: int, dy: int, speed: int)
    requires
        0 < speed,
        speed * speed <= length_sq(dx, dy),
    ensures
        length_sq(step_toward(dx, dy, speed).0, step_toward(dx, dy, speed).1) <= speed * speed,
        length_sq(
            magnitude(step_toward(dx, dy, speed).0) + 1,
            magnitude(step_toward(dx, dy, speed).1) + 1,
        ) > (speed - 1) * (speed - 1),
{
    let n = length_sq(dx, dy);
    let ss = speed * speed;
    assert(ss > 0) by (nonlinear_arith)
        requires
            0 < speed,
            ss == speed * speed,
    ;
    assert(dx != 0 || dy != 0) by (nonlinear_arith)
        requires
            0 < dx * dx + dy * dy,
    ;
    lemma_step_toward(dx, dy, speed);
    lemma_step_is_close(dx, dy, speed);
    let len = ceil_sqrt(n);
    let step = step_toward(dx, dy, speed);
    let a = magnitude(dx);
    let b = magnitude(dy);
    let x = magnitude(step.0) + 1;
    let y = magnitude(step.1) + 1;
    let ll = len * len;
    if speed > len {
        assert(ss > ll) by (nonlinear_arith)
            requires
                0 < len,
                len + 1 <= speed,
                ss == speed * speed,
                ll == len * len,
        ;
    }
    assert(a * a == dx * dx) by (nonlinear_arith)
        requires
            a == dx || a == -dx,
    ;
    assert(b * b == dy * dy) by (nonlinear_arith)
        requires
            b == dy || b == -dy,
    ;
    assert((x * x) * ll > (a * a) * ss) by (nonlinear_arith)
        requires
            0 <= a,
            0 < speed,
            a * speed < x * len,
            0 < len,
            ll == len * len,
            ss == speed * speed,
    ;
    assert((y * y) * ll > (b * b) * ss) by (nonlinear_arith)
        requires
            0 <= b,
            0 < speed,
            b * speed < y * len,
            0 < len,
            ll == len * len,
            ss == speed * speed,
    ;
    let grown = x * x + y * y;
    assert(grown * ll > n * ss) by (nonlinear_arith)
        requires
            (x * x) * ll > (a * a) * ss,
            (y * y) * ll > (b * b) * ss,
            grown == x * x + y * y,
            n == a * a + b * b,
    ;
    let under = (len - 1) * (len - 1);
    assert(n * ss > under * ss) by (nonlinear_arith)
        requires
            under < n,
            0 < ss,
    ;
    let short = (speed - 1) * (speed - 1);
    assert(under * ss >= short * ll) by (nonlinear_arith)
        requires
            0 < speed <= len,
            under == (len - 1) * (len - 1),
            short == (speed - 1) * (speed - 1),
            ss == speed * speed,
            ll == len * len,
    ;
    assert(0 < ll) by (nonlinear_arith)
        requires
            0 < len,
            ll == len * len,
    ;
    assert(grown > short) by (nonlinear_arith)
        requires
            grown * ll > short * ll,
            0 < ll,
    ;
}

/// Rounds `v` to the nearest representable coordinate.
pub fn saturate(v: i64) -> (r: i32)
    ensures
        r as int == clamp_coord(v as int),
{
    if v < -0x8000_0000i64 {
        i32::MIN
    } else if v > 0x7fff_ffffi64 {
        i32::MAX
    } else {
        v as i32
    }
}

/// Absolute value of a coordinate difference.
pub fn abs_diff(d: i64) -> (r: u64)
    requires
        -0x1_0000_0000 < d < 0x1_0000_0000,
    ensures
        r as int == magnitude(d as int),
        r < 0x1_0000_0000,
{
    if d < 0 {
        (-d) as u64
    } else {
        d as u64
    }
}

/// Squared distance between the points `(ax, ay)` and `(bx, by)`.
pub fn distance_squared(ax: i32, ay: i32, bx: i32, by: i32) -> (r: u128)
    ensures
        r as int == length_sq(bx - ax, by - ay),
{
    let dx: u64 = abs_diff(bx as i64 - ax as i64);
    let dy: u64 = abs_diff(by as i64 - ay as i64);
    let wx: u128 = dx as u128;
    let wy: u128 = dy as u128;
    assert(wx * wx <= 0xffff_fffe_0000_0001 && wx * wx == (bx - ax) * (bx - ax))
        by (nonlinear_arith)
        requires
            wx as int == magnitude(bx - ax),
            wx < 0x1_0000_0000,
    ;
    assert(wy * wy <= 0xffff_fffe_0000_0001 && wy * wy == (by - ay) * (by - ay))
        by (nonlinear_arith)
        requires
            wy as int == magnitude(by - ay),
            wy < 0x1_0000_0000,
    ;
    wx * wx + wy * wy
}

/// Integer square root, rounded down.
pub fn isqrt(n: u128) -> (r: u64)
    ensures
        is_floor_sqrt(n as int, r as int),
        r as int == floor_sqrt(n as int),
{
    let mut lo: u128 = 0;
    let mut hi: u128 = 0x1_0000_0000_0000_0000;
    assert(hi * hi > n) by (nonlinear_arith)
        requires
            hi == 0x1_0000_0000_0000_0000,
            n <= 0xffff_ffff_ffff_ffff_ffff_ffff_ffff_ffff,
    ;
    assert(lo * lo <= n) by (nonlinear_arith)
        requires
            lo == 0,
            n >= 0,
    ;
    while hi - lo > 1
        invariant
            lo < hi <= 0x1_0000_0000_0000_0000,
            lo * lo <= n,
            n < hi * hi,
        decreases hi - lo,
    {
        let mid: u128 = lo + (hi - lo) / 2;
        assert(mid * mid <= 0xffff_ffff_ffff_ffff_ffff_ffff_ffff_ffff) by (nonlinear_arith)
            requires
                mid <= 0xffff_ffff_ffff_ffff,
        ;
        if mid * mid <= n {
            lo = mid;
        } else {
            hi = mid;
        }
    }
    assert(hi == lo + 1);
    proof {
        lemma_floor_sqrt_is(n as int, lo as int);
    }
    lo as u64
}

/// One axis of a vector rescaled from length `len` to length `speed`.
fn scale(d: i64, speed: u32, len: u64) -> (r: i64)
    requires
        -0x1_0000_0000 < d < 0x1_0000_0000,
        0 < len,
        magnitude(d as int) <= len,
    ensures
        r as int == scale_axis(d as int, speed as int, len as int),
        magnitude(r as int) <= speed,
{
    let a: u64 = abs_diff(d);
    let s: u64 = speed as u64;
    assert(a * s <= 0xffff_ffff_0000_0000) by (nonlinear_arith)
        requires
            a < 0x1_0000_0000,
            s < 0x1_0000_0000,
    ;
    let q: u64 = a * s / len;
    proof {
        lemma_scale_axis_bounds(d as int, speed as int, len as int);
        if d < 0 {
            assert((-(d as int)) * (speed as int) == a * s) by (nonlinear_arith)
                requires
                    a as int == -(d as int),
                    s as int == speed as int,
            ;
        } else {
            assert((d as int) * (speed as int) == a * s) by (nonlinear_arith)
                requires
                    a as int == d as int,
                    s as int == speed as int,
            ;
        }
    }
    if d < 0 {
        -(q as i64)
    } else {
        q as i64
    }
}

/// The step of length `speed` along `(dx, dy)`.
pub fn step_vector(dx: i64, dy: i64, speed: u32) -> (r: (i64, i64))
    requires
        -0x1_0000_0000 < dx < 0x1_0000_0000,
        -0x1_0000_0000 < dy < 0x1_0000_0000,
    ensures
        (r.0 as int, r.1 as int) == step_toward(dx as int, dy as int, speed as int),
        magnitude(r.0 as int) <= speed,
        magnitude(r.1 as int) <= speed,
        length_sq(r.0 as int, r.1 as int) <= speed * speed,
{
    let ax: u128 = abs_diff(dx) as u128;
    let ay: u128 = abs_diff(dy) as u128;
    assert(ax * ax <= 0xffff_fffe_0000_0001 && ax * ax == dx * dx) by (nonlinear_arith)
        requires
            ax as int == magnitude(dx as int),
            ax < 0x1_0000_0000,
    ;
    assert(ay * ay <= 0xffff_fffe_0000_0001 && ay * ay == dy * dy) by (nonlinear_arith)
        requires
            ay as int == magnitude(dy as int),
            ay < 0x1_0000_0000,
    ;
    let n: u128 = ax * ax + ay * ay;
    let root: u64 = isqrt(n);
    assert(root < 0x2_0000_0000) by (nonlinear_arith)
        requires
            root * root <= n,
            n <= 0x1_ffff_fffc_0000_0002,
    ;
    assert(root * root <= 0x4_0000_0000_0000_0000) by (nonlinear_arith)
        requires
            root < 0x2_0000_0000,
    ;
    let len: u64 = if (root as u128) * (root as u128) == n {
        root
    } else {
        root + 1
    };
    proof {
        lemma_ceil_sqrt(n as int);
        lemma_step_toward(dx as int, dy as int, speed as int);
    }
    if len == 0 {
        (0, 0)
    } else {
        proof {
            lemma_axis_within_length(dx as int, dy as int, len as int);
        }
        (scale(dx, speed, len), scale(dy, speed, len))
    }
}

} // verus!
