//! Points, sizes and rectangles in integer coordinates.

use vstd::prelude::*;

verus! {

/// A point. The y axis points down.
#[derive(Clone, Copy, Debug, PartialEq, Eq, Structural)]
pub struct Point {
    pub x: i32,
    pub y: i32,
}

/// A width and a height.
#[derive(Clone, Copy, Debug, PartialEq, Eq, Structural)]
pub struct Size {
    pub w: i32,
    pub h: i32,
}

/// A rectangle: its top-left corner and its size.
#[derive(Clone, Copy, Debug, PartialEq, Eq, Structural)]
pub struct Rect {
    pub loc: Point,
    pub size: Size,
}

impl Rect {
    /// The x coordinate of the right edge.
    pub open spec fn right(self) -> int {
        self.loc.x + self.size.w
    }

    /// The y coordinate of the bottom edge.
    pub open spec fn bottom(self) -> int {
        self.loc.y + self.size.h
    }

    /// Whether both far edges can be written as coordinates.
    pub open spec fn fits(self) -> bool {
        &&& i32::MIN <= self.right() <= i32::MAX
        &&& i32::MIN <= self.bottom() <= i32::MAX
    }

    /// Whether the rectangle holds the point `(x, y)`. The right and the bottom
    /// edge do not belong to it.
    pub open spec fn holds(self, x: int, y: int) -> bool {
        &&& self.loc.x <= x < self.right()
        &&& self.loc.y <= y < self.bottom()
    }

    /// Whether the rectangle holds no point.
    pub open spec fn empty(self) -> bool {
        self.size.w <= 0 || self.size.h <= 0
    }
}

/// The rectangle with the given corner and size.
pub fn rect(x: i32, y: i32, w: i32, h: i32) -> (r: Rect)
    ensures
        r == (Rect { loc: Point { x, y }, size: Size { w, h } }),
{
    Rect { loc: Point { x, y }, size: Size { w, h } }
}

/// The smaller of two numbers.
pub open spec fn min(a: int, b: int) -> int {
    if a <= b {
        a
    } else {
        b
    }
}

/// The larger of two numbers.
pub open spec fn max(a: int, b: int) -> int {
    if a >= b {
        a
    } else {
        b
    }
}

/// `a` brought into the range from `low` to `high`.
pub open spec fn clamp(a: int, low: int, high: int) -> int {
    if a < low {
        low
    } else if a > high {
        high
    } else {
        a
    }
}

/// The smaller of two coordinates.
pub fn min_i32(a: i32, b: i32) -> (r: i32)
    ensures
        r == min(a as int, b as int),
{
    if a <= b {
        a
    } else {
        b
    }
}

/// The larger of two coordinates.
pub fn max_i32(a: i32, b: i32) -> (r: i32)
    ensures
        r == max(a as int, b as int),
{
    if a >= b {
        a
    } else {
        b
    }
}

/// The quotient of two numbers rounded toward zero.
pub open spec fn quot(a: int, b: int) -> int
    recommends
        b > 0,
{
    if a >= 0 {
        a / b
    } else {
        -((-a) / b)
    }
}

/// Whether two rectangles have a point in common.
pub open spec fn overlap(a: Rect, b: Rect) -> bool {
    &&& max(a.loc.x as int, b.loc.x as int) < min(a.right(), b.right())
    &&& max(a.loc.y as int, b.loc.y as int) < min(a.bottom(), b.bottom())
}

/// The common part of two rectangles that overlap.
pub open spec fn common(a: Rect, b: Rect) -> Rect {
    let x = max(a.loc.x as int, b.loc.x as int);
    let y = max(a.loc.y as int, b.loc.y as int);
    Rect {
        loc: Point { x: x as i32, y: y as i32 },
        size: Size {
            w: (min(a.right(), b.right()) - x) as i32,
            h: (min(a.bottom(), b.bottom()) - y) as i32,
        },
    }
}

/// The part that two rectangles share, where they overlap.
pub fn intersection(a: Rect, b: Rect) -> (r: Option<Rect>)
    ensures
        r == (if overlap(a, b) {
            Some(common(a, b))
        } else {
            None
        }),
{
    let left: i64 = if a.loc.x >= b.loc.x {
        a.loc.x as i64
    } else {
        b.loc.x as i64
    };
    let top: i64 = if a.loc.y >= b.loc.y {
        a.loc.y as i64
    } else {
        b.loc.y as i64
    };
    let ar: i64 = a.loc.x as i64 + a.size.w as i64;
    let br: i64 = b.loc.x as i64 + b.size.w as i64;
    let ab: i64 = a.loc.y as i64 + a.size.h as i64;
    let bb: i64 = b.loc.y as i64 + b.size.h as i64;
    let right: i64 = if ar <= br {
        ar
    } else {
        br
    };
    let bottom: i64 = if ab <= bb {
        ab
    } else {
        bb
    };
    if left < right && top < bottom {
        Some(
            Rect {
                loc: Point { x: left as i32, y: top as i32 },
                size: Size { w: (right - left) as i32, h: (bottom - top) as i32 },
            },
        )
    } else {
        None
    }
}

/// The common part of two rectangles holds exactly the points that both hold.
pub proof fn law_common_holds(a: Rect, b: Rect, x: int, y: int)
    ensures
        overlap(a, b) ==> (common(a, b).holds(x, y) <==> a.holds(x, y) && b.holds(x, y)),
        !overlap(a, b) ==> !(a.holds(x, y) && b.holds(x, y)),
{
}

/// A number is brought into a range by the shortest way: what lies in it stays, what
/// lies below goes to its lower end and what lies above to its upper end.
pub proof fn law_clamp(a: int, low: int, high: int)
    requires
        low <= high,
    ensures
        low <= clamp(a, low, high) <= high,
        low <= a <= high ==> clamp(a, low, high) == a,
        a < low ==> clamp(a, low, high) == low,
        a > high ==> clamp(a, low, high) == high,
        min(low, high) == low && max(low, high) == high,
        min(high, low) == low && max(high, low) == high,
{
}

/// The quotient loses less than a whole divisor, and never a sign: it is the largest
/// multiple that does not go beyond the number, away from zero.
pub proof fn law_quotient(a: int, b: int)
    requires
        b > 0,
    ensures
        a >= 0 ==> quot(a, b) >= 0 && quot(a, b) * b <= a < (quot(a, b) + 1) * b,
        quot(-a, b) == -quot(a, b),
{
    vstd::arithmetic::div_mod::lemma_fundamental_div_mod(a, b);
    let q = a / b;
    assert(b * q == q * b && (q + 1) * b == q * b + b) by (nonlinear_arith);
    if a >= 0 {
        vstd::arithmetic::div_mod::lemma_div_pos_is_pos(a, b);
        if a == 0 {
            assert(q == 0) by (nonlinear_arith)
                requires
                    q == 0int / b,
                    b > 0,
            ;
        }
    }
}

/// A rectangle holds its corner and the points less than its width to the right and
/// less than its height below, and overlaps another exactly where each begins before
/// the other ends, with neither empty.
pub proof fn law_rectangles(a: Rect, b: Rect, x: int, y: int)
    ensures
        a.holds(x, y) <==> 0 <= x - a.loc.x < a.size.w && 0 <= y - a.loc.y < a.size.h,
        a.empty() <==> !a.holds(a.loc.x as int, a.loc.y as int),
        overlap(a, b) <==> a.size.w > 0 && a.size.h > 0 && b.size.w > 0 && b.size.h > 0 && a.loc.x
            < b.loc.x + b.size.w && b.loc.x < a.loc.x + a.size.w && a.loc.y < b.loc.y + b.size.h
            && b.loc.y < a.loc.y + a.size.h,
{
}

} // verus!
