//! Integer 2D vector arithmetic: add, subtract, per-axis sign-normalize,
//! and rounded Euclidean distance.

use vstd::prelude::*;

verus! {

/// Sign of an integer, per axis: -1, 0, or 1.
pub open spec fn sign(v: int) -> int {
    if v > 0 {
        1
    } else if v < 0 {
        -1
    } else {
        0
    }
}

/// Square of an integer.
pub open spec fn sq(v: int) -> int {
    v * v
}

/// `r` is the square root of `s` rounded to the nearest integer
/// (halves round up; for integer `s` the half case cannot occur).
/// Equivalent to `r - 1/2 <= sqrt(s) < r + 1/2`, squared to stay in
/// integer arithmetic.
pub open spec fn is_rounded_sqrt(s: int, r: int) -> bool {
    &&& 0 <= r
    &&& 4 * s < sq(2 * r + 1)
    &&& (r == 0 || sq(2 * r - 1) <= 4 * s)
}

/// Squared Euclidean distance between two coordinates.
pub open spec fn sq_dist(a: Coord, b: Coord) -> int {
    sq(a.x - b.x) + sq(a.y - b.y)
}

/// A rounded square root is unique: the contract of `Coord::distance`
/// pins its result down completely.
pub proof fn lemma_rounded_sqrt_unique(s: int, r1: int, r2: int)
    requires
        is_rounded_sqrt(s, r1),
        is_rounded_sqrt(s, r2),
    ensures
        r1 == r2,
{
    assert(r1 == r2) by (nonlinear_arith)
        requires
            0 <= r1,
            0 <= r2,
            4 * s < (2 * r1 + 1) * (2 * r1 + 1),
            4 * s < (2 * r2 + 1) * (2 * r2 + 1),
            (r1 == 0 || (2 * r1 - 1) * (2 * r1 - 1) <= 4 * s),
            (r2 == 0 || (2 * r2 - 1) * (2 * r2 - 1) <= 4 * s),
    {}
}

/// The rounded distance is at most 1 exactly when the squared distance
/// is at most 2, i.e. when the two coordinates are equal or adjacent
/// (diagonals included).
pub proof fn lemma_rounded_sqrt_le_one(s: int, r: int)
    requires
        0 <= s,
        is_rounded_sqrt(s, r),
    ensures
        (r <= 1) <==> (s <= 2),
{
    assert((r <= 1) <==> (s <= 2)) by (nonlinear_arith)
        requires
            0 <= s,
            0 <= r,
            4 * s < (2 * r + 1) * (2 * r + 1),
            (r == 0 || (2 * r - 1) * (2 * r - 1) <= 4 * s),
    {}
}

#[derive(Debug, Hash, PartialEq, Eq, Structural, Clone, Copy)]
pub struct Coord {
    pub x: i32,
    pub y: i32,
}

impl Coord {
    /// Componentwise sum; meaningful whenever both sums fit in `i32`.
    pub open spec fn spec_add(self, other: Coord) -> Coord {
        Coord { x: (self.x + other.x) as i32, y: (self.y + other.y) as i32 }
    }

    /// Componentwise difference; meaningful whenever both differences
    /// fit in `i32`.
    pub open spec fn spec_subtract(self, other: Coord) -> Coord {
        Coord { x: (self.x - other.x) as i32, y: (self.y - other.y) as i32 }
    }

    /// Per-axis sign of the vector from `self` to `other`.
    pub open spec fn spec_toward_sign(self, other: Coord) -> Coord {
        Coord { x: sign(other.x - self.x) as i32, y: sign(other.y - self.y) as i32 }
    }

    pub fn new(x: i32, y: i32) -> (r: Self)
        ensures
            r == (Coord { x, y }),
    {
        Coord { x, y }
    }

    pub fn add(&self, other: &Coord) -> (r: Self)
        requires
            i32::MIN <= self.x + other.x <= i32::MAX,
            i32::MIN <= self.y + other.y <= i32::MAX,
        ensures
            r.x == self.x + other.x,
            r.y == self.y + other.y,
            r == self.spec_add(*other),
    {
        Coord { x: self.x + other.x, y: self.y + other.y }
    }

    /// The vector pointing from `self` to `other`.
    pub fn toward(&self, other: &Coord) -> (r: Self)
        requires
            i32::MIN <= other.x - self.x <= i32::MAX,
            i32::MIN <= other.y - self.y <= i32::MAX,
        ensures
            r.x == other.x - self.x,
            r.y == other.y - self.y,
            r == other.spec_subtract(*self),
    {
        Coord { x: other.x - self.x, y: other.y - self.y }
    }

    pub fn subtract(&self, other: &Coord) -> (r: Self)
        requires
            i32::MIN <= self.x - other.x <= i32::MAX,
            i32::MIN <= self.y - other.y <= i32::MAX,
        ensures
            r.x == self.x - other.x,
            r.y == self.y - other.y,
            r == self.spec_subtract(*other),
    {
        Coord { x: self.x - other.x, y: self.y - other.y }
    }

    /// Maps each axis independently to -1, 0, or +1; this is not a
    /// unit-length normalization. The zero vector maps to itself.
    pub fn normalize(&self) -> (r: Self)
        ensures
            r.x == sign(self.x as int),
            r.y == sign(self.y as int),
    {
        Coord {
            x: if self.x > 0 {
                1
            } else if self.x < 0 {
                -1
            } else {
                0
            },
            y: if self.y > 0 {
                1
            } else if self.y < 0 {
                -1
            } else {
                0
            },
        }
    }

    /// Euclidean distance between `self` and `other`, rounded to the
    /// nearest integer. The precondition only keeps the result within
    /// `i32`.
    pub fn distance(&self, other: &Coord) -> (r: i32)
        requires
            sq_dist(*self, *other) <= i32::MAX * i32::MAX + i32::MAX,
        ensures
            is_rounded_sqrt(sq_dist(*self, *other), r as int),
    {
        let dx: i64 = self.x as i64 - other.x as i64;
        let dy: i64 = self.y as i64 - other.y as i64;
        let dxw: i128 = dx as i128;
        let dyw: i128 = dy as i128;
        proof {
            assert(dxw * dxw + dyw * dyw == sq_dist(*self, *other) && 0 <= dxw * dxw && 0
                <= dyw * dyw) by (nonlinear_arith)
                requires
                    dxw == self.x - other.x,
                    dyw == self.y - other.y,
            {}
        }
        let s: u128 = (dxw * dxw + dyw * dyw) as u128;
        proof {
            assert((1u128 << 64) == 0x1_0000_0000_0000_0000) by (bit_vector);
        }
        let q: u128 = isqrt(s);
        let ghost qi = q as int;
        let ghost si = s as int;
        let r: u128 = if s - q * q > q {
            q + 1
        } else {
            q
        };
        proof {
            assert(is_rounded_sqrt(si, (qi + 1)) || si - qi * qi <= qi) by (nonlinear_arith)
                requires
                    0 <= qi,
                    0 <= si,
                    qi * qi <= si < (qi + 1) * (qi + 1),
                    si - qi * qi > qi || si - qi * qi <= qi,
            {}
            assert(si - qi * qi <= qi ==> is_rounded_sqrt(si, qi)) by (nonlinear_arith)
                requires
                    0 <= qi,
                    0 <= si,
                    qi * qi <= si < (qi + 1) * (qi + 1),
            {}
            assert(r as int <= i32::MAX) by (nonlinear_arith)
                requires
                    is_rounded_sqrt(si, r as int),
                    si <= i32::MAX * i32::MAX + i32::MAX,
            {}
        }
        r as i32
    }
}

/// Integer square root by binary search: the largest `q` with
/// `q * q <= s`.
fn isqrt(s: u128) -> (q: u128)
    requires
        s < (1u128 << 64),
    ensures
        sq(q as int) <= s as int,
        (s as int) < sq(q as int + 1),
{
    let mut lo: u128 = 0;
    let mut hi: u128 = 1u128 << 32;
    proof {
        assert((1u128 << 32) as int * (1u128 << 32) as int == (1u128 << 64) as int && 0
            < (1u128 << 32)) by (bit_vector);
    }
    while lo + 1 < hi
        invariant
            lo < hi <= 1u128 << 32,
            sq(lo as int) <= s as int,
            (s as int) < sq(hi as int),
        decreases hi - lo,
    {
        let mid: u128 = lo + (hi - lo) / 2;
        proof {
            assert(mid * mid <= (1u128 << 32) * (1u128 << 32)) by (nonlinear_arith)
                requires
                    0 <= mid <= 1u128 << 32,
            {}
            assert((1u128 << 32) * (1u128 << 32) < u128::MAX) by (bit_vector);
        }
        if mid * mid <= s {
            lo = mid;
        } else {
            hi = mid;
        }
    }
    lo
}

/// Adding a vector and then subtracting it again yields the original
/// coordinate, whenever the intermediate sums fit in `i32`.
pub proof fn lemma_add_then_subtract(a: Coord, b: Coord)
    requires
        i32::MIN <= a.x + b.x <= i32::MAX,
        i32::MIN <= a.y + b.y <= i32::MAX,
    ensures
        a.spec_add(b).spec_subtract(b) == a,
{
}

} // verus!
