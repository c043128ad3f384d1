//! Generic minimum and maximum, and two-dimensional integer geometry:
//! vectors, axis-aligned rectangles and triangles.

use vstd::prelude::*;
use vstd::std_specs::cmp::{PartialOrdIs, PartialOrdSpec};

verus! {

/// The smaller of two values: `lhs` when `lhs < rhs`, otherwise `rhs`.
pub fn min<T>(lhs: T, rhs: T) -> (r: T)
    where T: Copy + PartialOrd,
    ensures
        T::obeys_partial_cmp_spec() ==> r == (if lhs.is_lt(&rhs) { lhs } else { rhs }),
{
    if lhs < rhs {
        lhs
    } else {
        rhs
    }
}

/// The larger of two values: `lhs` when `lhs > rhs`, otherwise `rhs`.
pub fn max<T>(lhs: T, rhs: T) -> (r: T)
    where T: Copy + PartialOrd,
    ensures
        T::obeys_partial_cmp_spec() ==> r == (if lhs.is_gt(&rhs) { lhs } else { rhs }),
{
    if lhs > rhs {
        lhs
    } else {
        rhs
    }
}

/// The smaller of two integers, as `min` picks it.
pub open spec fn min_int(a: int, b: int) -> int {
    if a < b { a } else { b }
}

/// The larger of two integers, as `max` picks it.
pub open spec fn max_int(a: int, b: int) -> int {
    if a > b { a } else { b }
}

/// The absolute value of an integer.
pub open spec fn abs_int(v: int) -> int {
    if v < 0 { -v } else { v }
}

/// A pair of coordinates.
#[derive(Copy, Clone, Debug, Default, PartialEq, Eq, PartialOrd, Ord, Hash)]
pub struct Vector2<T> {
    pub x: T,
    pub y: T,
}

impl<T> Vector2<T> {
    pub fn new(x: T, y: T) -> (r: Self)
        ensures
            r.x == x,
            r.y == y,
    {
        Self { x, y }
    }
}

/// An axis-aligned rectangle given by its corner of least coordinates and
/// its corner of greatest coordinates.
pub struct Rectangle2D<T> {
    pub lefttopmost: Vector2<T>,
    pub rightbottommost: Vector2<T>,
}

impl Rectangle2D<i32> {
    /// The X coordinate of the corner of least coordinates.
    pub fn x(&self) -> (r: i32)
        ensures
            r == self.lefttopmost.x,
    {
        self.lefttopmost.x
    }

    /// The half-open range of X coordinates, from the least X up to (not
    /// including) the greatest.
    pub fn x_range(&self) -> (r: core::ops::Range<i32>)
        ensures
            r.start == self.lefttopmost.x,
            r.end == self.rightbottommost.x,
    {
        self.lefttopmost.x..self.rightbottommost.x
    }

    /// The Y coordinate of the corner of least coordinates.
    pub fn y(&self) -> (r: i32)
        ensures
            r == self.lefttopmost.y,
    {
        self.lefttopmost.y
    }

    /// The half-open range of Y coordinates, from the least Y up to (not
    /// including) the greatest.
    pub fn y_range(&self) -> (r: core::ops::Range<i32>)
        ensures
            r.start == self.lefttopmost.y,
            r.end == self.rightbottommost.y,
    {
        self.lefttopmost.y..self.rightbottommost.y
    }
}

/// A triangle given by its three vertices, in no particular order.
pub struct Triangle2D<T>(pub Vector2<T>, pub Vector2<T>, pub Vector2<T>);

/// The cross product of the edges `a -> b` and `a -> c`: twice the signed
/// area of the triangle `a, b, c`.
pub open spec fn cross(a: Vector2<i32>, b: Vector2<i32>, c: Vector2<i32>) -> int {
    (b.x - a.x) * (c.y - a.y) - (c.x - a.x) * (b.y - a.y)
}

/// Twice the area of the triangle `a, b, c`, whatever its orientation.
pub open spec fn area_of(a: Vector2<i32>, b: Vector2<i32>, c: Vector2<i32>) -> int {
    abs_int(cross(a, b, c))
}

/// Twice the area of a triangle.
pub open spec fn triangle_area(t: Triangle2D<i32>) -> int {
    area_of(t.0, t.1, t.2)
}

/// The area-decomposition containment test: the three triangles that `p`
/// forms with the edges of `t` together have the area of `t`. This holds
/// exactly for the points inside `t` or on its boundary.
pub open spec fn triangle_contains(t: Triangle2D<i32>, p: Vector2<i32>) -> bool {
    area_of(p, t.0, t.1) + area_of(p, t.1, t.2) + area_of(p, t.2, t.0) == triangle_area(t)
}

pub open spec fn triangle_min_x(t: Triangle2D<i32>) -> int {
    min_int(t.0.x as int, min_int(t.1.x as int, t.2.x as int))
}

pub open spec fn triangle_min_y(t: Triangle2D<i32>) -> int {
    min_int(t.0.y as int, min_int(t.1.y as int, t.2.y as int))
}

pub open spec fn triangle_max_x(t: Triangle2D<i32>) -> int {
    max_int(t.0.x as int, max_int(t.1.x as int, t.2.x as int))
}

pub open spec fn triangle_max_y(t: Triangle2D<i32>) -> int {
    max_int(t.0.y as int, max_int(t.1.y as int, t.2.y as int))
}

proof fn lemma_product_bound(a: int, b: int)
    requires
        -0x1_0000_0000 <= a <= 0x1_0000_0000,
        -0x1_0000_0000 <= b <= 0x1_0000_0000,
    ensures
        -0x1_0000_0000_0000_0000 <= a * b <= 0x1_0000_0000_0000_0000,
{
    assert(-0x1_0000_0000_0000_0000 <= a * b <= 0x1_0000_0000_0000_0000) by (nonlinear_arith)
        requires
            -0x1_0000_0000 <= a <= 0x1_0000_0000,
            -0x1_0000_0000 <= b <= 0x1_0000_0000,
    ;
}

/// Twice the area of the triangle `a, b, c`, computed without overflow.
fn twice_area(a: Vector2<i32>, b: Vector2<i32>, c: Vector2<i32>) -> (r: i128)
    ensures
        r == area_of(a, b, c),
        0 <= r <= 0x2_0000_0000_0000_0000,
{
    let e1x = b.x as i128 - a.x as i128;
    let e1y = b.y as i128 - a.y as i128;
    let e2x = c.x as i128 - a.x as i128;
    let e2y = c.y as i128 - a.y as i128;
    proof {
        lemma_product_bound(e1x as int, e2y as int);
        lemma_product_bound(e2x as int, e1y as int);
    }
    let v = e1x * e2y - e2x * e1y;
    if v < 0 {
        -v
    } else {
        v
    }
}

impl Triangle2D<i32> {
    /// Twice the area of the triangle, from the cross product of the two
    /// edges that leave the first vertex; zero for collinear vertices.
    pub fn area(&self) -> (r: i128)
        ensures
            r == triangle_area(*self),
    {
        twice_area(self.0, self.1, self.2)
    }

    /// The tightest axis-aligned rectangle that holds the three vertices.
    pub fn encapsulating_rectangle(&self) -> (r: Rectangle2D<i32>)
        ensures
            r.lefttopmost.x == triangle_min_x(*self),
            r.lefttopmost.y == triangle_min_y(*self),
            r.rightbottommost.x == triangle_max_x(*self),
            r.rightbottommost.y == triangle_max_y(*self),
    {
        Rectangle2D {
            lefttopmost: Vector2::new(self.min_x(), self.min_y()),
            rightbottommost: Vector2::new(self.max_x(), self.max_y()),
        }
    }

    /// Whether `point` lies inside the triangle or on its boundary.
    pub fn hit_test(&self, point: Vector2<i32>) -> (r: bool)
        ensures
            r == triangle_contains(*self, point),
    {
        let area = self.area();
        let a1 = twice_area(point, self.0, self.1);
        let a2 = twice_area(point, self.1, self.2);
        let a3 = twice_area(point, self.2, self.0);
        a1 + a2 + a3 == area
    }

    /// The greatest X coordinate of the three vertices.
    pub fn max_x(&self) -> (r: i32)
        ensures
            r == triangle_max_x(*self),
    {
        max(self.0.x, max(self.1.x, self.2.x))
    }

    /// The greatest Y coordinate of the three vertices.
    pub fn max_y(&self) -> (r: i32)
        ensures
            r == triangle_max_y(*self),
    {
        max(self.0.y, max(self.1.y, self.2.y))
    }

    /// The least X coordinate of the three vertices.
    pub fn min_x(&self) -> (r: i32)
        ensures
            r == triangle_min_x(*self),
    {
        min(self.0.x, min(self.1.x, self.2.x))
    }

    /// The least Y coordinate of the three vertices.
    pub fn min_y(&self) -> (r: i32)
        ensures
            r == triangle_min_y(*self),
    {
        min(self.0.y, min(self.1.y, self.2.y))
    }
}

} // verus!
