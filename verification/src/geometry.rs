//! Fixed-point plane geometry.
//!
//! Lengths are whole numbers of thousandths of a world unit, so a coordinate
//! of `60_000` is sixty world units. Every `i32` is a valid coordinate; a
//! move that would leave the `i32` range stops at its edge.

use vstd::prelude::*;

verus! {

/// A position in the plane, in thousandths of a world unit.
#[derive(Clone, Copy, Debug, PartialEq, Eq, Hash, Structural)]
pub struct Point {
    pub x: i32,
    pub y: i32,
}

/// An axis-aligned rectangle; both corners belong to it.
#[derive(Clone, Copy, Debug, PartialEq, Eq, Hash, Structural)]
pub struct Rect {
    pub min: Point,
    pub max: Point,
}

/// The square of the Euclidean distance between two points.
pub open spec fn distance_squared(a: Point, b: Point) -> int {
    (a.x - b.x) * (a.x - b.x) + (a.y - b.y) * (a.y - b.y)
}

/// Whether two points lie strictly closer together than `range`.
pub open spec fn within_range(a: Point, b: Point, range: int) -> bool {
    distance_squared(a, b) < range * range
}

/// Whether `r` is the integer square root of `n`.
pub open spec fn is_int_sqrt(r: nat, n: nat) -> bool {
    r * r <= n && n < (r + 1) * (r + 1)
}

/// The integer square root: the one `r` with `r * r <= n < (r + 1) * (r + 1)`.
pub open spec fn int_sqrt(n: nat) -> nat {
    choose|r: nat| is_int_sqrt(r, n)
}

/// The nearest coordinate to `v` that fits an `i32`.
pub open spec fn clamp_coordinate(v: int) -> i32 {
    if v < i32::MIN {
        i32::MIN
    } else if v > i32::MAX {
        i32::MAX
    } else {
        v as i32
    }
}

/// One coordinate after a move of length `step` along a line of length
/// `dist` whose end lies `delta` away on this axis. The displacement is
/// `delta * step / dist`, rounded toward zero.
pub open spec fn advance(from: int, delta: int, step: int, dist: int) -> int {
    if delta >= 0 {
        from + (delta * step) / dist
    } else {
        from - ((-delta) * step) / dist
    }
}

/// The position reached from `from` by a move of length `step` straight
/// toward `to`. The move does not stop at `to`: a step longer than the
/// distance overshoots. A point already at `to` stays, as no direction leads
/// from a point to itself.
pub open spec fn moved_toward(from: Point, to: Point, step: int) -> Point {
    let dist = int_sqrt(distance_squared(from, to) as nat) as int;
    if dist == 0 {
        from
    } else {
        Point {
            x: clamp_coordinate(advance(from.x as int, to.x - from.x, step, dist)),
            y: clamp_coordinate(advance(from.y as int, to.y - from.y, step, dist)),
        }
    }
}

/// The floor of the mean of two coordinates.
pub open spec fn midpoint(a: int, b: int) -> int {
    (a + b) / 2
}

proof fn lemma_square_monotonic(a: nat, b: nat)
    by (nonlinear_arith)
    requires
        a <= b,
    ensures
        a * a <= b * b,
{
}

/// The integer square root is unique, so any `r` that brackets `n` is it.
pub proof fn lemma_int_sqrt_unique(n: nat, r: nat)
    requires
        is_int_sqrt(r, n),
    ensures
        int_sqrt(n) == r,
{
    let s = int_sqrt(n);
    assert(is_int_sqrt(s, n));
    if s < r {
        lemma_square_monotonic(s + 1, r);
    } else if r < s {
        lemma_square_monotonic(r + 1, s);
    }
}

proof fn lemma_square_bound(d: int)
    by (nonlinear_arith)
    requires
        -0x1_0000_0000 < d < 0x1_0000_0000,
    ensures
        0 <= d * d <= 0xffff_ffff * 0xffff_ffff,
{
}

proof fn lemma_product_bound(a: int, b: int, amax: int, bmax: int)
    by (nonlinear_arith)
    requires
        0 <= a <= amax,
        0 <= b <= bmax,
    ensures
        0 <= a * b <= amax * bmax,
{
}

proof fn lemma_quotient_bound(n: int, d: int)
    by (nonlinear_arith)
    requires
        0 <= n,
        1 <= d,
    ensures
        0 <= n / d <= n,
{
}

impl Point {
    /// The square of the distance from `self` to `other`.
    pub fn distance_squared(&self, other: &Point) -> (r: u128)
        ensures
            r == distance_squared(*self, *other),
    {
        let dx: i128 = self.x as i128 - other.x as i128;
        let dy: i128 = self.y as i128 - other.y as i128;
        proof {
            lemma_square_bound(dx as int);
            lemma_square_bound(dy as int);
        }
        let sx: i128 = dx * dx;
        let sy: i128 = dy * dy;
        (sx + sy) as u128
    }

    /// Whether `other` lies strictly closer to `self` than `range`.
    pub fn within(&self, other: &Point, range: u32) -> (r: bool)
        ensures
            r == within_range(*self, *other, range as int),
    {
        let limit: u128 = range as u128;
        proof {
            lemma_product_bound(range as int, range as int, 0xffff_ffff, 0xffff_ffff);
        }
        self.distance_squared(other) < limit * limit
    }

    /// The position one move of length `step` closer to `to`.
    pub fn step_toward(&self, to: &Point, step: u64) -> (r: Point)
        ensures
            r == moved_toward(*self, *to, step as int),
    {
        let dist: u64 = floor_sqrt(self.distance_squared(to));
        if dist == 0 {
            return *self;
        }
        Point {
            x: advance_coordinate(self.x, to.x, step, dist),
            y: advance_coordinate(self.y, to.y, step, dist),
        }
    }
}

/// One coordinate of a move: see [`advance`].
fn advance_coordinate(from: i32, to: i32, step: u64, dist: u64) -> (r: i32)
    requires
        dist > 0,
    ensures
        r == clamp_coordinate(advance(from as int, to - from, step as int, dist as int)),
{
    let delta: i64 = to as i64 - from as i64;
    let forward: bool = delta >= 0;
    let length: u128 = if forward {
        delta as u128
    } else {
        (-delta) as u128
    };
    proof {
        lemma_product_bound(
            length as int,
            step as int,
            0x1_0000_0000,
            0xffff_ffff_ffff_ffff,
        );
    }
    let product: u128 = length * (step as u128);
    let travelled: u128 = product / (dist as u128);
    proof {
        lemma_quotient_bound(product as int, dist as int);
    }
    let moved: i128 = if forward {
        from as i128 + travelled as i128
    } else {
        from as i128 - travelled as i128
    };
    if moved < i32::MIN as i128 {
        i32::MIN
    } else if moved > i32::MAX as i128 {
        i32::MAX
    } else {
        moved as i32
    }
}

/// The integer square root of `n`.
pub fn floor_sqrt(n: u128) -> (r: u64)
    ensures
        r == int_sqrt(n as nat),
        r * r <= n,
        n < (r + 1) * (r + 1),
{
    let mut low: u128 = 0;
    let mut high: u128 = 0x1_0000_0000_0000_0000;
    while high - low > 1
        invariant
            low < high <= 0x1_0000_0000_0000_0000,
            low * low <= n,
            n < high * high,
        decreases high - low,
    {
        let middle: u128 = low + (high - low) / 2;
        proof {
            lemma_product_bound(
                middle as int,
                middle as int,
                0xffff_ffff_ffff_ffff,
                0xffff_ffff_ffff_ffff,
            );
        }
        if middle * middle <= n {
            low = middle;
        } else {
            high = middle;
        }
    }
    proof {
        lemma_int_sqrt_unique(n as nat, low as nat);
    }
    low as u64
}

impl Rect {
    /// The rectangle spanned by two opposite corners, given in any order.
    pub fn new(x0: i32, y0: i32, x1: i32, y1: i32) -> (r: Rect)
        ensures
            r.min.x == if x0 <= x1 { x0 } else { x1 },
            r.max.x == if x0 <= x1 { x1 } else { x0 },
            r.min.y == if y0 <= y1 { y0 } else { y1 },
            r.max.y == if y0 <= y1 { y1 } else { y0 },
    {
        Rect {
            min: Point { x: if x0 <= x1 { x0 } else { x1 }, y: if y0 <= y1 { y0 } else { y1 } },
            max: Point { x: if x0 <= x1 { x1 } else { x0 }, y: if y0 <= y1 { y1 } else { y0 } },
        }
    }

    /// Whether `p` lies in the rectangle, its border included.
    pub open spec fn spec_contains(&self, p: Point) -> bool {
        self.min.x <= p.x <= self.max.x && self.min.y <= p.y <= self.max.y
    }

    /// Whether `p` lies in the rectangle, its border included.
    #[verifier::when_used_as_spec(spec_contains)]
    pub fn contains(&self, p: Point) -> (r: bool)
        ensures
            r == self.spec_contains(p),
    {
        self.min.x <= p.x && p.x <= self.max.x && self.min.y <= p.y && p.y <= self.max.y
    }

    /// The centre of the rectangle, each coordinate rounded down.
    pub open spec fn spec_center(&self) -> Point {
        Point {
            x: midpoint(self.min.x as int, self.max.x as int) as i32,
            y: midpoint(self.min.y as int, self.max.y as int) as i32,
        }
    }

    /// The centre of the rectangle, each coordinate rounded down.
    #[verifier::when_used_as_spec(spec_center)]
    pub fn center(&self) -> (r: Point)
        ensures
            r == self.spec_center(),
    {
        Point { x: mean(self.min.x, self.max.x), y: mean(self.min.y, self.max.y) }
    }
}

/// The floor of the mean of two coordinates.
fn mean(a: i32, b: i32) -> (r: i32)
    ensures
        r == midpoint(a as int, b as int),
{
    let low: i64 = if a <= b { a as i64 } else { b as i64 };
    let high: i64 = if a <= b { b as i64 } else { a as i64 };
    let half: u64 = (high - low) as u64 / 2;
    (low + half as i64) as i32
}

} // verus!
