//! Integer plane geometry: vectors, lengths, directions and angle tests.
//!
//! Lengths are compared through their squares, so every distance test is exact.
//! Directions are fixed-point vectors whose length is close to [`UNIT`], and an
//! angle threshold is given by its cosine scaled by [`UNIT`].
use vstd::prelude::*;

verus! {

/// The largest magnitude a coordinate of a position may have.
pub const COORD_LIMIT: i64 = 16_777_216;

/// The fixed-point length of a direction, and the scale of a cosine.
pub const UNIT: i64 = 100_000;

/// A mathematical vector of the plane.
pub ghost struct Pt {
    pub x: int,
    pub y: int,
}

/// A point or offset of the plane, in the simulation's length units.
#[derive(Clone, Copy, Debug, PartialEq, Eq, Structural)]
pub struct Vec2 {
    pub x: i64,
    pub y: i64,
}

impl View for Vec2 {
    type V = Pt;

    open spec fn view(&self) -> Pt {
        Pt { x: self.x as int, y: self.y as int }
    }
}

pub open spec fn pt(x: int, y: int) -> Pt {
    Pt { x, y }
}

pub open spec fn zero() -> Pt {
    Pt { x: 0, y: 0 }
}

pub open spec fn plus(a: Pt, b: Pt) -> Pt {
    Pt { x: a.x + b.x, y: a.y + b.y }
}

/// The offset that leads from `from` to `to`.
pub open spec fn diff(from: Pt, to: Pt) -> Pt {
    Pt { x: to.x - from.x, y: to.y - from.y }
}

pub open spec fn times(k: int, a: Pt) -> Pt {
    Pt { x: k * a.x, y: k * a.y }
}

pub open spec fn negate(a: Pt) -> Pt {
    Pt { x: -a.x, y: -a.y }
}

pub open spec fn dot(a: Pt, b: Pt) -> int {
    a.x * b.x + a.y * b.y
}

/// The squared length of `a`.
pub open spec fn len2(a: Pt) -> int {
    dot(a, a)
}

/// `a` turned by a right angle counterclockwise: the left side of a heading `a`.
pub open spec fn perp(a: Pt) -> Pt {
    Pt { x: -a.y, y: a.x }
}

/// Every coordinate of `a` lies in `[-b, b]`.
pub open spec fn bounded(a: Pt, b: int) -> bool {
    -b <= a.x <= b && -b <= a.y <= b
}

/// `r` is the integer square root of `n`, rounded down.
pub open spec fn is_root(n: int, r: int) -> bool {
    0 <= r && r * r <= n < (r + 1) * (r + 1)
}

/// The integer square root of `n`, rounded down.
pub open spec fn floor_sqrt(n: int) -> int {
    choose|r: int| is_root(n, r)
}

/// Integer division that rounds toward zero, as Rust's `/` does.
pub open spec fn trunc_div(a: int, b: int) -> int {
    if a >= 0 {
        a / b
    } else {
        -((-a) / b)
    }
}

/// The integer length of `a`, rounded down.
pub open spec fn length(a: Pt) -> int {
    floor_sqrt(len2(a))
}

/// `a` scaled to length `len`: `a / |a| * len`, each coordinate rounded toward
/// zero, with `|a|` the rounded-down integer length. The zero vector stays zero.
pub open spec fn resized(a: Pt, len: int) -> Pt {
    let n = length(a);
    if n == 0 {
        zero()
    } else {
        Pt { x: trunc_div(a.x * len, n), y: trunc_div(a.y * len, n) }
    }
}

/// The angle between `a` and `b` is larger than the angle whose cosine is
/// `cos / UNIT` (a cosine in `[0, UNIT]`, so an angle of at most a right angle).
///
/// With `cos(a, b) = dot(a, b) / (|a| |b|)` this is `dot(a, b) * UNIT < cos * |a| |b|`,
/// squared where both sides are non-negative. A zero vector makes no angle, so it
/// exceeds nothing.
pub open spec fn angle_exceeds(a: Pt, b: Pt, cos: int) -> bool {
    dot(a, b) < 0 || dot(a, b) * dot(a, b) * (UNIT * UNIT) < cos * cos * (len2(a) * len2(b))
}

/// The angle between `a` and `b` is less than a right angle.
pub open spec fn within_right_angle(a: Pt, b: Pt) -> bool {
    dot(a, b) > 0
}

proof fn lemma_root_unique(n: int, r: int, s: int)
    requires
        is_root(n, r),
        is_root(n, s),
    ensures
        r == s,
{
    if r < s {
        assert((r + 1) * (r + 1) <= s * s) by (nonlinear_arith)
            requires
                0 <= r,
                r < s,
        ;
    } else if s < r {
        assert((s + 1) * (s + 1) <= r * r) by (nonlinear_arith)
            requires
                0 <= s,
                s < r,
        ;
    }
}

/// Once a root is known, it is the one that `floor_sqrt` names.
pub proof fn lemma_floor_sqrt(n: int, r: int)
    requires
        is_root(n, r),
    ensures
        floor_sqrt(n) == r,
{
    let s = floor_sqrt(n);
    assert(is_root(n, s));
    lemma_root_unique(n, r, s);
}

/// The integer square root of `n`, rounded down, by bisection.
pub fn isqrt(n: u128) -> (r: u128)
    ensures
        is_root(n as int, r as int),
        r == floor_sqrt(n as int),
        r < 0x1_0000_0000_0000_0000,
{
    let mut lo: u128 = 0;
    let mut hi: u128 = 0x1_0000_0000_0000_0000;
    assert(n < hi * hi) by (nonlinear_arith)
        requires
            hi == 0x1_0000_0000_0000_0000int,
            n < 0x1_0000_0000_0000_0000_0000_0000_0000_0000int,
    ;
    while hi - lo > 1
        invariant
            lo < hi <= 0x1_0000_0000_0000_0000,
            lo * lo <= n,
            n < hi * hi,
        decreases hi - lo,
    {
        let mid: u128 = lo + (hi - lo) / 2;
        assert(mid * mid < 0x1_0000_0000_0000_0000_0000_0000_0000_0000int) by (nonlinear_arith)
            requires
                mid < 0x1_0000_0000_0000_0000int,
        ;
        if mid * mid <= n {
            lo = mid;
        } else {
            hi = mid;
        }
    }
    proof {
        assert(hi == lo + 1);
        lemma_floor_sqrt(n as int, lo as int);
    }
    lo
}

/// A vector with wide coordinates: sums of many terms, forces.
#[derive(Clone, Copy, Debug, PartialEq, Eq, Structural)]
pub struct WideVec {
    pub x: i128,
    pub y: i128,
}

impl View for WideVec {
    type V = Pt;

    open spec fn view(&self) -> Pt {
        Pt { x: self.x as int, y: self.y as int }
    }
}

/// A product of two factors bounded in magnitude is bounded by the product of the bounds.
pub proof fn lemma_mul_abs(a: int, ba: int, b: int, bb: int)
    requires
        -ba <= a <= ba,
        -bb <= b <= bb,
    ensures
        -(ba * bb) <= a * b <= ba * bb,
{
    assert(-(ba * bb) <= a * b <= ba * bb) by (nonlinear_arith)
        requires
            -ba <= a <= ba,
            -bb <= b <= bb,
    ;
}

impl WideVec {
    pub fn from_vec(v: Vec2) -> (r: WideVec)
        ensures
            r@ == v@,
    {
        WideVec { x: v.x as i128, y: v.y as i128 }
    }

    pub fn plus(self, o: WideVec) -> (r: WideVec)
        requires
            bounded(self@, 0x2000_0000_0000_0000_0000_0000_0000_0000),
            bounded(o@, 0x2000_0000_0000_0000_0000_0000_0000_0000),
        ensures
            r@ == plus(self@, o@),
    {
        WideVec { x: self.x + o.x, y: self.y + o.y }
    }
}

/// Rust's division of `a` by a positive `b`, which rounds toward zero.
pub fn div_toward_zero(a: i128, b: i128) -> (q: i128)
    requires
        b > 0,
        a > i128::MIN,
    ensures
        q == trunc_div(a as int, b as int),
{
    if a >= 0 {
        a / b
    } else {
        -((-a) / b)
    }
}

/// The dot product of two vectors, with the bounds under which it fits.
fn dot_exec(a: WideVec, b: WideVec, ba: i128, bb: i128) -> (r: i128)
    requires
        0 <= ba,
        0 <= bb,
        bounded(a@, ba as int),
        bounded(b@, bb as int),
        ba * bb <= 0x1000_0000_0000_0000_0000_0000_0000_0000,
    ensures
        r == dot(a@, b@),
        -2 * (ba * bb) <= r <= 2 * (ba * bb),
{
    proof {
        lemma_mul_abs(a.x as int, ba as int, b.x as int, bb as int);
        lemma_mul_abs(a.y as int, ba as int, b.y as int, bb as int);
    }
    let p = a.x * b.x;
    let q = a.y * b.y;
    assert(-(ba * bb) <= p <= ba * bb);
    assert(-(ba * bb) <= q <= ba * bb);
    assert(-2 * (ba * bb) <= p + q <= 2 * (ba * bb)) by (nonlinear_arith)
        requires
            -(ba * bb) <= p <= ba * bb,
            -(ba * bb) <= q <= ba * bb,
    ;
    p + q
}

/// `|x| <= n` whenever `x * x <= m` and `n` is the rounded-down root of `m`.
proof fn lemma_coord_below_root(x: int, m: int, n: int)
    requires
        x * x <= m,
        is_root(m, n),
    ensures
        -n <= x <= n,
{
    if x > n {
        assert(x * x >= (n + 1) * (n + 1)) by (nonlinear_arith)
            requires
                x >= n + 1,
                n >= 0,
        ;
    } else if x < -n {
        assert(x * x >= (n + 1) * (n + 1)) by (nonlinear_arith)
            requires
                -x >= n + 1,
                n >= 0,
        ;
    }
}

/// A coordinate scaled by `len / n`, where the coordinate is at most `n` in magnitude,
/// is at most `len` in magnitude.
pub proof fn lemma_scaled_coord(x: int, len: int, n: int)
    requires
        -n <= x <= n,
        0 < n,
        0 <= len,
    ensures
        -len <= trunc_div(x * len, n) <= len,
{
    if x >= 0 {
        assert(x * len <= n * len) by (nonlinear_arith)
            requires
                x <= n,
                0 <= len,
        ;
        assert(0 <= x * len) by (nonlinear_arith)
            requires
                0 <= x,
                0 <= len,
        ;
        assert((x * len) / n <= (n * len) / n) by (nonlinear_arith)
            requires
                x * len <= n * len,
                0 < n,
        ;
        assert((n * len) / n == len) by (nonlinear_arith)
            requires
                0 < n,
        ;
        assert(0 <= (x * len) / n) by (nonlinear_arith)
            requires
                0 <= x * len,
                0 < n,
        ;
    } else {
        assert((-(x * len)) <= n * len) by (nonlinear_arith)
            requires
                -x <= n,
                0 <= len,
        ;
        assert(0 <= -(x * len)) by (nonlinear_arith)
            requires
                x < 0,
                0 <= len,
        ;
        assert((-(x * len)) / n <= (n * len) / n) by (nonlinear_arith)
            requires
                -(x * len) <= n * len,
                0 < n,
        ;
        assert((n * len) / n == len) by (nonlinear_arith)
            requires
                0 < n,
        ;
        assert(0 <= (-(x * len)) / n) by (nonlinear_arith)
            requires
                0 <= -(x * len),
                0 < n,
        ;
    }
}

/// `a` scaled to length `len` (see [`resized`]).
pub fn resize(a: WideVec, len: i128) -> (r: WideVec)
    requires
        bounded(a@, 0x4000_0000_0000_0000),
        0 <= len <= COORD_LIMIT,
    ensures
        r@ == resized(a@, len as int),
        bounded(r@, len as int),
{
    proof {
        lemma_mul_abs(a.x as int, 0x4000_0000_0000_0000, a.x as int, 0x4000_0000_0000_0000);
        lemma_mul_abs(a.y as int, 0x4000_0000_0000_0000, a.y as int, 0x4000_0000_0000_0000);
    }
    let m: i128 = a.x * a.x + a.y * a.y;
    assert(0 <= a.x * a.x && 0 <= a.y * a.y) by (nonlinear_arith);
    let n: u128 = isqrt(m as u128);
    if n == 0 {
        WideVec { x: 0, y: 0 }
    } else {
        proof {
            lemma_coord_below_root(a.x as int, m as int, n as int);
            lemma_coord_below_root(a.y as int, m as int, n as int);
            lemma_mul_abs(a.x as int, 0x4000_0000_0000_0000, len as int, COORD_LIMIT as int);
            lemma_mul_abs(a.y as int, 0x4000_0000_0000_0000, len as int, COORD_LIMIT as int);
            lemma_scaled_coord(a.x as int, len as int, n as int);
            lemma_scaled_coord(a.y as int, len as int, n as int);
        }
        let x = div_toward_zero(a.x * len, n as i128);
        let y = div_toward_zero(a.y * len, n as i128);
        WideVec { x, y }
    }
}

/// Whether the angle between `a` and `b` exceeds the one whose cosine is `cos / UNIT`
/// (see [`angle_exceeds`]).
pub fn exceeds_angle(a: WideVec, b: WideVec, cos: i64) -> (r: bool)
    requires
        bounded(a@, 0x200_0000),
        bounded(b@, 0x2_0000),
        0 <= cos <= UNIT,
    ensures
        r == angle_exceeds(a@, b@, cos as int),
{
    let d = dot_exec(a, b, 0x200_0000, 0x2_0000);
    if d < 0 {
        return true;
    }
    let la = dot_exec(a, a, 0x200_0000, 0x200_0000);
    let lb = dot_exec(b, b, 0x2_0000, 0x2_0000);
    let u = UNIT as i128;
    let c = cos as i128;
    proof {
        assert(0 <= la && 0 <= lb) by (nonlinear_arith)
            requires
                la == a@.x * a@.x + a@.y * a@.y,
                lb == b@.x * b@.x + b@.y * b@.y,
        ;
        lemma_mul_abs(d as int, 0x800_0000_0000, d as int, 0x800_0000_0000);
        lemma_mul_abs((d * d) as int, 0x40_0000_0000_0000_0000_0000, (u * u) as int, 0x4_0000_0000);
        lemma_mul_abs(c as int, 0x2_0000, c as int, 0x2_0000);
        lemma_mul_abs(la as int, 0x8_0000_0000_0000, lb as int, 0x8_0000_0000);
        lemma_mul_abs((c * c) as int, 0x4_0000_0000, (la * lb) as int, 0x40_0000_0000_0000_0000_0000);
    }
    d * d * (u * u) < c * c * (la * lb)
}

/// Whether the angle between `a` and `b` is less than a right angle.
pub fn within_right_angle_exec(a: WideVec, b: WideVec) -> (r: bool)
    requires
        bounded(a@, 0x4000_0000_0000_0000),
        bounded(b@, 0x2_0000),
    ensures
        r == within_right_angle(a@, b@),
{
    dot_exec(a, b, 0x4000_0000_0000_0000, 0x2_0000) > 0
}

} // verus!
