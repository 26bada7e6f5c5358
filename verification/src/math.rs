use vstd::prelude::*;

verus! {

/// A 2-D point or offset on the dungeon grid.
#[derive(Clone, Copy, Debug, PartialEq, Eq, Structural)]
pub struct Vector<T> {
    pub x: T,
    pub y: T,
}

/// An axis-aligned box on the grid; `p1` is the inclusive lower corner and
/// `p2` the exclusive upper corner.
#[derive(Clone, Copy, Debug, PartialEq, Eq, Structural)]
pub struct Rectangle {
    pub p1: Vector<i8>,
    pub p2: Vector<i8>,
}

/// Two rectangles overlap when their half-open extents intersect strictly on
/// both axes; rectangles that merely touch along an edge do not overlap.
pub open spec fn overlap_spec(a: Rectangle, b: Rectangle) -> bool {
    &&& vstd::math::min(a.p2.x as int, b.p2.x as int) > vstd::math::max(a.p1.x as int, b.p1.x as int)
    &&& vstd::math::min(a.p2.y as int, b.p2.y as int) > vstd::math::max(a.p1.y as int, b.p1.y as int)
}

/// Half-open membership: `p1 <= p < p2` on both axes.
pub open spec fn contains_pt(rect: Rectangle, x: int, y: int) -> bool {
    &&& rect.p1.x <= x < rect.p2.x
    &&& rect.p1.y <= y < rect.p2.y
}

/// Signed area form of the distance from point `p` to the line through `a`
/// and `b`: zero on the line, positive on one side, negative on the other.
#[verifier::opaque]
pub open spec fn point_line_dist_spec(p: Vector<int>, a: Vector<int>, b: Vector<int>) -> int {
    (b.y - a.y) * p.x + (a.x - b.x) * p.y + (b.x * a.y - a.x * b.y)
}

pub open spec fn widen(v: Vector<i32>) -> Vector<int> {
    Vector { x: v.x as int, y: v.y as int }
}

/// The segment from `a` to `b` cuts through `rect`, where `rect` is widened
/// by one unit on its lower corners so that touching a wall counts. The
/// segment misses when all four corners lie on one side of its line, or when
/// the segment's shadow lies entirely outside the rectangle's shadow on
/// either axis.
#[verifier::opaque]
pub open spec fn segment_intersects_spec(rect: Rectangle, a: Vector<i32>, b: Vector<i32>) -> bool {
    let bl = Vector { x: rect.p1.x - 1, y: rect.p1.y - 1 };
    let br = Vector { x: rect.p2.x as int, y: rect.p1.y - 1 };
    let tr = Vector { x: rect.p2.x as int, y: rect.p2.y as int };
    let tl = Vector { x: rect.p1.x - 1, y: rect.p2.y as int };
    let d1 = point_line_dist_spec(tl, widen(a), widen(b));
    let d2 = point_line_dist_spec(tr, widen(a), widen(b));
    let d3 = point_line_dist_spec(br, widen(a), widen(b));
    let d4 = point_line_dist_spec(bl, widen(a), widen(b));
    &&& !((d1 <= 0 && d2 <= 0 && d3 <= 0 && d4 <= 0) || (d1 >= 0 && d2 >= 0 && d3 >= 0 && d4 >= 0))
    &&& !(a.x > tr.x && b.x > tr.x)
    &&& !((a.x as int) < bl.x && (b.x as int) < bl.x)
    &&& !(a.y > tr.y && b.y > tr.y)
    &&& !((a.y as int) < bl.y && (b.y as int) < bl.y)
}

/// Coordinates handled by the segment test stay below this bound, which keeps
/// every product in the distance form within `i64`.
pub const SEG_COORD_LIMIT: i32 = 1000000;

/// A product of values bounded in magnitude is bounded by the product of the
/// bounds.
proof fn lemma_mul_bound(a: int, b: int, ma: int, mb: int)
    by (nonlinear_arith)
    requires
        -ma <= a <= ma,
        -mb <= b <= mb,
        0 <= ma,
        0 <= mb,
    ensures
        -(ma * mb) <= a * b <= ma * mb,
{
}

impl Rectangle {
    /// True when `self` and `other` cover at least one common cell.
    pub fn overlap(&self, other: &Rectangle) -> (r: bool)
        ensures
            r == overlap_spec(*self, *other),
    {
        let min_x2: i8 = if self.p2.x < other.p2.x { self.p2.x } else { other.p2.x };
        let max_x1: i8 = if self.p1.x > other.p1.x { self.p1.x } else { other.p1.x };
        let min_y2: i8 = if self.p2.y < other.p2.y { self.p2.y } else { other.p2.y };
        let max_y1: i8 = if self.p1.y > other.p1.y { self.p1.y } else { other.p1.y };
        min_x2 > max_x1 && min_y2 > max_y1
    }

    /// Half-open membership test for a grid point.
    pub fn is_inside(&self, p: Vector<i8>) -> (r: bool)
        ensures
            r == contains_pt(*self, p.x as int, p.y as int),
    {
        p.x >= self.p1.x && p.x < self.p2.x && p.y >= self.p1.y && p.y < self.p2.y
    }

    /// Extent of the rectangle on each axis.
    pub fn size(&self) -> (r: Vector<u8>)
        requires
            self.p1.x <= self.p2.x,
            self.p1.y <= self.p2.y,
        ensures
            r.x as int == self.p2.x - self.p1.x,
            r.y as int == self.p2.y - self.p1.y,
    {
        Vector {
            x: (self.p2.x as i16 - self.p1.x as i16) as u8,
            y: (self.p2.y as i16 - self.p1.y as i16) as u8,
        }
    }

    /// Signed distance form used by the corner tests of `intersects`.
    fn point_line_distance(p: Vector<i32>, a: Vector<i32>, b: Vector<i32>) -> (r: i64)
        requires
            -SEG_COORD_LIMIT <= p.x <= SEG_COORD_LIMIT,
            -SEG_COORD_LIMIT <= p.y <= SEG_COORD_LIMIT,
            -SEG_COORD_LIMIT <= a.x <= SEG_COORD_LIMIT,
            -SEG_COORD_LIMIT <= a.y <= SEG_COORD_LIMIT,
            -SEG_COORD_LIMIT <= b.x <= SEG_COORD_LIMIT,
            -SEG_COORD_LIMIT <= b.y <= SEG_COORD_LIMIT,
        ensures
            r == point_line_dist_spec(widen(p), widen(a), widen(b)),
    {
        let dy: i64 = b.y as i64 - a.y as i64;
        let dx: i64 = a.x as i64 - b.x as i64;
        proof {
            reveal(point_line_dist_spec);
            lemma_mul_bound(dy as int, p.x as int, 2 * SEG_COORD_LIMIT as int, SEG_COORD_LIMIT as int);
            lemma_mul_bound(dx as int, p.y as int, 2 * SEG_COORD_LIMIT as int, SEG_COORD_LIMIT as int);
            lemma_mul_bound(b.x as int, a.y as int, SEG_COORD_LIMIT as int, SEG_COORD_LIMIT as int);
            lemma_mul_bound(a.x as int, b.y as int, SEG_COORD_LIMIT as int, SEG_COORD_LIMIT as int);
        }
        dy * p.x as i64 + dx * p.y as i64 + (b.x as i64 * a.y as i64 - a.x as i64 * b.y as i64)
    }

    /// True when the segment from `a` to `b` would cut through this
    /// rectangle; used to veto corridor segments that would cross a room.
    pub fn intersects(&self, a: Vector<i32>, b: Vector<i32>) -> (r: bool)
        requires
            -SEG_COORD_LIMIT <= a.x <= SEG_COORD_LIMIT,
            -SEG_COORD_LIMIT <= a.y <= SEG_COORD_LIMIT,
            -SEG_COORD_LIMIT <= b.x <= SEG_COORD_LIMIT,
            -SEG_COORD_LIMIT <= b.y <= SEG_COORD_LIMIT,
        ensures
            r == segment_intersects_spec(*self, a, b),
    {
        proof {
            reveal(segment_intersects_spec);
        }
        let bl = Vector { x: self.p1.x as i32 - 1, y: self.p1.y as i32 - 1 };
        let br = Vector { x: self.p2.x as i32, y: self.p1.y as i32 - 1 };
        let tr = Vector { x: self.p2.x as i32, y: self.p2.y as i32 };
        let tl = Vector { x: self.p1.x as i32 - 1, y: self.p2.y as i32 };

        let d1 = Rectangle::point_line_distance(tl, a, b);
        let d2 = Rectangle::point_line_distance(tr, a, b);
        let d3 = Rectangle::point_line_distance(br, a, b);
        let d4 = Rectangle::point_line_distance(bl, a, b);

        if (d1 <= 0 && d2 <= 0 && d3 <= 0 && d4 <= 0) || (d1 >= 0 && d2 >= 0 && d3 >= 0 && d4 >= 0)
        {
            return false;
        }

        if a.x > tr.x && b.x > tr.x {
            return false;
        }

        if a.x < bl.x && b.x < bl.x {
            return false;
        }

        if a.y > tr.y && b.y > tr.y {
            return false;
        }

        if a.y < bl.y && b.y < bl.y {
            return false;
        }

        true
    }
}

/// World coordinates of rooms and waypoints stay within this range, so a
/// bounding box over them always fits the tile grid's `u8` dimensions.
pub const COORD_MIN: i8 = -127;

pub const COORD_MAX: i8 = 127;

/// A room rectangle as placement produces it: non-degenerate, inside the
/// coordinate domain, lower corner on even coordinates and upper corner on
/// odd ones, so room interiors stay centered on odd grid cells and even
/// gridlines stay free for corridors.
pub open spec fn aligned_room(r: Rectangle) -> bool {
    &&& r.p1.x < r.p2.x
    &&& r.p1.y < r.p2.y
    &&& COORD_MIN <= r.p1.x
    &&& r.p2.x <= COORD_MAX
    &&& COORD_MIN <= r.p1.y
    &&& r.p2.y <= COORD_MAX
    &&& r.p1.x % 2 == 0
    &&& r.p1.y % 2 == 0
    &&& r.p2.x % 2 == 1
    &&& r.p2.y % 2 == 1
}

/// The nearest even value at or below `v`.
pub open spec fn align_even_down_spec(v: int) -> int {
    if v % 2 == 0 {
        v
    } else {
        v - 1
    }
}

/// The nearest even value at or above `v`.
pub open spec fn align_even_up_spec(v: int) -> int {
    if v % 2 == 0 {
        v
    } else {
        v + 1
    }
}

/// The nearest odd value at or above `v`.
pub open spec fn align_odd_up_spec(v: int) -> int {
    if v % 2 == 0 {
        v + 1
    } else {
        v
    }
}

/// The nearest even value at or below `v`.
pub fn align_even_down(v: i32) -> (r: i32)
    requires
        -SEG_COORD_LIMIT <= v <= SEG_COORD_LIMIT,
    ensures
        r == align_even_down_spec(v as int),
        r % 2 == 0,
        v - 1 <= r <= v,
    {
    if v % 2 == 0 {
        v
    } else {
        v - 1
    }
}

/// The nearest even value at or above `v`.
pub fn align_even_up(v: i32) -> (r: i32)
    requires
        -SEG_COORD_LIMIT <= v <= SEG_COORD_LIMIT,
    ensures
        r == align_even_up_spec(v as int),
        r % 2 == 0,
        v <= r <= v + 1,
    {
    if v % 2 == 0 {
        v
    } else {
        v + 1
    }
}

/// The nearest odd value at or above `v`.
pub fn align_odd_up(v: i32) -> (r: i32)
    requires
        -SEG_COORD_LIMIT <= v <= SEG_COORD_LIMIT,
    ensures
        r == align_odd_up_spec(v as int),
        r % 2 == 1,
        v <= r <= v + 1,
    {
    if v % 2 == 0 {
        v + 1
    } else {
        v
    }
}

/// A compass direction on the grid; north is toward decreasing y.
#[derive(Clone, Copy, Debug, PartialEq, Eq, Structural)]
pub enum Direction {
    North,
    South,
    East,
    West,
}

/// A rotation by a whole number of quarter turns, counter-clockwise.
#[derive(Clone, Copy, Debug, PartialEq, Eq, Structural)]
pub enum Rot {
    R0,
    R90,
    R180,
    R270,
}

impl Rot {
    /// The rotation applied to a point, as a map on unbounded coordinates.
    pub open spec fn apply_spec(self, p: Vector<int>) -> Vector<int> {
        match self {
            Rot::R0 => p,
            Rot::R90 => Vector { x: -p.y, y: p.x },
            Rot::R180 => Vector { x: -p.x, y: -p.y },
            Rot::R270 => Vector { x: p.y, y: -p.x },
        }
    }

    pub open spec fn inverse_spec(self) -> Rot {
        match self {
            Rot::R0 => Rot::R0,
            Rot::R90 => Rot::R270,
            Rot::R180 => Rot::R180,
            Rot::R270 => Rot::R90,
        }
    }

    /// The rotation that applies `other` first and then `self`.
    pub open spec fn compose_spec(self, other: Rot) -> Rot {
        match (self, other) {
            (Rot::R0, o) => o,
            (s, Rot::R0) => s,
            (Rot::R90, Rot::R90) => Rot::R180,
            (Rot::R90, Rot::R180) => Rot::R270,
            (Rot::R90, Rot::R270) => Rot::R0,
            (Rot::R180, Rot::R90) => Rot::R270,
            (Rot::R180, Rot::R180) => Rot::R0,
            (Rot::R180, Rot::R270) => Rot::R90,
            (Rot::R270, Rot::R90) => Rot::R0,
            (Rot::R270, Rot::R180) => Rot::R90,
            (Rot::R270, Rot::R270) => Rot::R180,
        }
    }

    /// Rotates a point about the origin.
    pub fn apply(self, p: Vector<i32>) -> (r: Vector<i32>)
        requires
            -SEG_COORD_LIMIT <= p.x <= SEG_COORD_LIMIT,
            -SEG_COORD_LIMIT <= p.y <= SEG_COORD_LIMIT,
        ensures
            widen(r) == self.apply_spec(widen(p)),
            -SEG_COORD_LIMIT <= r.x <= SEG_COORD_LIMIT,
            -SEG_COORD_LIMIT <= r.y <= SEG_COORD_LIMIT,
    {
        match self {
            Rot::R0 => p,
            Rot::R90 => Vector { x: -p.y, y: p.x },
            Rot::R180 => Vector { x: -p.x, y: -p.y },
            Rot::R270 => Vector { x: p.y, y: -p.x },
        }
    }

    pub fn inverse(self) -> (r: Rot)
        ensures
            r == self.inverse_spec(),
    {
        match self {
            Rot::R0 => Rot::R0,
            Rot::R90 => Rot::R270,
            Rot::R180 => Rot::R180,
            Rot::R270 => Rot::R90,
        }
    }

    /// The rotation that applies `other` first and then `self`.
    pub fn compose(self, other: Rot) -> (r: Rot)
        ensures
            r == self.compose_spec(other),
    {
        match (self, other) {
            (Rot::R0, o) => o,
            (s, Rot::R0) => s,
            (Rot::R90, Rot::R90) => Rot::R180,
            (Rot::R90, Rot::R180) => Rot::R270,
            (Rot::R90, Rot::R270) => Rot::R0,
            (Rot::R180, Rot::R90) => Rot::R270,
            (Rot::R180, Rot::R180) => Rot::R0,
            (Rot::R180, Rot::R270) => Rot::R90,
            (Rot::R270, Rot::R90) => Rot::R0,
            (Rot::R270, Rot::R180) => Rot::R90,
            (Rot::R270, Rot::R270) => Rot::R180,
        }
    }
}

/// True when the segment from `a` to `b` cuts through either rectangle.
pub fn intersects(a: Vector<i32>, b: Vector<i32>, r1: &Rectangle, r2: &Rectangle) -> (r: bool)
    requires
        -SEG_COORD_LIMIT <= a.x <= SEG_COORD_LIMIT,
        -SEG_COORD_LIMIT <= a.y <= SEG_COORD_LIMIT,
        -SEG_COORD_LIMIT <= b.x <= SEG_COORD_LIMIT,
        -SEG_COORD_LIMIT <= b.y <= SEG_COORD_LIMIT,
    ensures
        r == (segment_intersects_spec(*r1, a, b) || segment_intersects_spec(*r2, a, b)),
{
    r1.intersects(a, b) || r2.intersects(a, b)
}

} // verus!
