//! Points, sizes and rectangles in whole pixels.
//!
//! A value is *bounded* when each of its numbers lies within `COORD_MAX` of
//! zero, so that the sum of two of them fits the machine integer. Every
//! operation first pins its arguments to that range and then its result, so
//! that it is defined on all values and bounded values come out.

use vstd::prelude::*;

verus! {

/// The largest magnitude of a coordinate or an extent.
pub const COORD_MAX: i32 = 0x2000_0000;

/// The bounded value nearest to `v`.
pub open spec fn clamp_coord(v: int) -> i32 {
    if v < -COORD_MAX {
        (-COORD_MAX) as i32
    } else if v > COORD_MAX {
        COORD_MAX
    } else {
        v as i32
    }
}

/// `v` is within the coordinate range.
pub open spec fn coord_bounded(v: int) -> bool {
    -COORD_MAX <= v <= COORD_MAX
}

/// Pins `v` to the coordinate range.
pub fn clamp(v: i32) -> (r: i32)
    ensures
        r == clamp_coord(v as int),
        coord_bounded(r as int),
{
    if v < -COORD_MAX {
        -COORD_MAX
    } else if v > COORD_MAX {
        COORD_MAX
    } else {
        v
    }
}

/// The larger of two numbers.
pub open spec fn max_int(a: int, b: int) -> int {
    if a >= b {
        a
    } else {
        b
    }
}

/// The smaller of two numbers.
pub open spec fn min_int(a: int, b: int) -> int {
    if a <= b {
        a
    } else {
        b
    }
}

/// A point, or a move by a point.
#[derive(Clone, Copy, Debug, PartialEq, Eq, Structural)]
pub struct Point {
    pub x: i32,
    pub y: i32,
}

/// The extent of a rectangle.
#[derive(Clone, Copy, Debug, PartialEq, Eq, Structural)]
pub struct Size {
    pub width: i32,
    pub height: i32,
}

/// A rectangle by its upper left corner and its extent.
#[derive(Clone, Copy, Debug, PartialEq, Eq, Structural)]
pub struct Rect {
    pub origin: Point,
    pub size: Size,
}

impl Point {
    /// Every number of the value is within the coordinate range.
    pub open spec fn bounded(self) -> bool {
        coord_bounded(self.x as int) && coord_bounded(self.y as int)
    }

    /// The value with every number pinned to the coordinate range.
    pub open spec fn clamped(self) -> Point {
        Point { x: clamp_coord(self.x as int), y: clamp_coord(self.y as int) }
    }

    /// `self + by`, componentwise.
    pub open spec fn plus(self, by: Point) -> Point {
        Point {
            x: clamp_coord(self.clamped().x + by.clamped().x),
            y: clamp_coord(self.clamped().y + by.clamped().y),
        }
    }

    /// `-self`, componentwise.
    pub open spec fn negated(self) -> Point {
        Point { x: (-self.clamped().x) as i32, y: (-self.clamped().y) as i32 }
    }

    pub fn new(x: i32, y: i32) -> (p: Point)
        ensures
            p == (Point { x, y }).clamped(),
            p.bounded(),
    {
        Point { x: clamp(x), y: clamp(y) }
    }

    pub fn zero() -> (p: Point)
        ensures
            p == (Point { x: 0, y: 0 }),
    {
        Point { x: 0, y: 0 }
    }

    pub fn clamp(&self) -> (p: Point)
        ensures
            p == self.clamped(),
            p.bounded(),
    {
        Point { x: clamp(self.x), y: clamp(self.y) }
    }

    pub fn add(&self, by: &Point) -> (p: Point)
        ensures
            p == self.plus(*by),
            p.bounded(),
    {
        let a = self.clamp();
        let b = by.clamp();
        Point { x: clamp(a.x + b.x), y: clamp(a.y + b.y) }
    }

    pub fn neg(&self) -> (p: Point)
        ensures
            p == self.negated(),
            p.bounded(),
    {
        let a = self.clamp();
        Point { x: -a.x, y: -a.y }
    }
}

impl Size {
    /// Every number of the value is within the coordinate range.
    pub open spec fn bounded(self) -> bool {
        coord_bounded(self.width as int) && coord_bounded(self.height as int)
    }

    /// The value with every number pinned to the coordinate range.
    pub open spec fn clamped(self) -> Size {
        Size { width: clamp_coord(self.width as int), height: clamp_coord(self.height as int) }
    }

    /// The size with nothing below zero and nothing above the bound.
    pub open spec fn extent(self) -> Size {
        Size {
            width: clamp_coord(max_int(self.width as int, 0)),
            height: clamp_coord(max_int(self.height as int, 0)),
        }
    }

    /// No pixel lies within an extent of this size.
    pub open spec fn empty(self) -> bool {
        self.width <= 0 || self.height <= 0
    }

    pub fn new(width: i32, height: i32) -> (s: Size)
        ensures
            s == (Size { width, height }).clamped(),
            s.bounded(),
    {
        Size { width: clamp(width), height: clamp(height) }
    }

    pub fn zero() -> (s: Size)
        ensures
            s == (Size { width: 0, height: 0 }),
    {
        Size { width: 0, height: 0 }
    }

    pub fn clamp(&self) -> (s: Size)
        ensures
            s == self.clamped(),
            s.bounded(),
    {
        Size { width: clamp(self.width), height: clamp(self.height) }
    }

    pub fn is_empty(&self) -> (b: bool)
        ensures
            b == self.empty(),
    {
        self.width <= 0 || self.height <= 0
    }

    pub fn to_extent(&self) -> (s: Size)
        ensures
            s == self.extent(),
            s.bounded(),
            s.width >= 0,
            s.height >= 0,
    {
        Size {
            width: clamp(if self.width > 0 { self.width } else { 0 }),
            height: clamp(if self.height > 0 { self.height } else { 0 }),
        }
    }
}

/// The part that two bounded rectangles share, if it holds a pixel.
pub open spec fn shared_part(a: Rect, b: Rect) -> Option<Rect> {
    let x0 = max_int(a.origin.x as int, b.origin.x as int);
    let y0 = max_int(a.origin.y as int, b.origin.y as int);
    let x1 = min_int(a.origin.x + a.size.width, b.origin.x + b.size.width);
    let y1 = min_int(a.origin.y + a.size.height, b.origin.y + b.size.height);
    if x1 > x0 && y1 > y0 {
        Some(
            Rect {
                origin: Point { x: x0 as i32, y: y0 as i32 },
                size: Size { width: (x1 - x0) as i32, height: (y1 - y0) as i32 },
            },
        )
    } else {
        None
    }
}

/// `euclid::Rect::translate` on whole pixels: the origin moves by `by`, the
/// size stays. The arguments are bounded, so the sums cannot overflow.
#[verifier::external_body]
fn euclid_translate(r: Rect, by: Point) -> (t: Rect)
    requires
        r.bounded(),
        by.bounded(),
    ensures
        t.origin.x == r.origin.x + by.x,
        t.origin.y == r.origin.y + by.y,
        t.size == r.size,
{
    let e = euclid::default::Rect::new(
        euclid::default::Point2D::new(r.origin.x, r.origin.y),
        euclid::default::Size2D::new(r.size.width, r.size.height),
    );
    let t = e.translate(euclid::default::Vector2D::new(by.x, by.y));
    Rect {
        origin: Point { x: t.origin.x, y: t.origin.y },
        size: Size { width: t.size.width, height: t.size.height },
    }
}

/// `euclid::Rect::intersection` on whole pixels: the rectangle between the
/// larger of the two upper-left corners and the smaller of the two
/// lower-right corners, or nothing where that holds no pixel.
#[verifier::external_body]
fn euclid_intersection(a: Rect, b: Rect) -> (r: Option<Rect>)
    requires
        a.bounded(),
        b.bounded(),
    ensures
        r == shared_part(a, b),
{
    let ea = euclid::default::Rect::new(
        euclid::default::Point2D::new(a.origin.x, a.origin.y),
        euclid::default::Size2D::new(a.size.width, a.size.height),
    );
    let eb = euclid::default::Rect::new(
        euclid::default::Point2D::new(b.origin.x, b.origin.y),
        euclid::default::Size2D::new(b.size.width, b.size.height),
    );
    match ea.intersection(&eb) {
        Some(t) => Some(Rect {
            origin: Point { x: t.origin.x, y: t.origin.y },
            size: Size { width: t.size.width, height: t.size.height },
        }),
        None => None,
    }
}

/// `euclid::Rect::inflate` on whole pixels: each side moves outwards, by
/// `dx` to the left and to the right and by `dy` upwards and downwards.
#[verifier::external_body]
fn euclid_inflate(r: Rect, dx: i32, dy: i32) -> (t: Rect)
    requires
        r.bounded(),
        coord_bounded(dx as int),
        coord_bounded(dy as int),
    ensures
        t.origin.x == r.origin.x - dx,
        t.origin.y == r.origin.y - dy,
        t.size.width == r.size.width + dx + dx,
        t.size.height == r.size.height + dy + dy,
{
    let e = euclid::default::Rect::new(
        euclid::default::Point2D::new(r.origin.x, r.origin.y),
        euclid::default::Size2D::new(r.size.width, r.size.height),
    );
    let t = e.inflate(dx, dy);
    Rect {
        origin: Point { x: t.origin.x, y: t.origin.y },
        size: Size { width: t.size.width, height: t.size.height },
    }
}

/// `euclid::Rect::contains` on whole pixels: a point is in a rectangle if
/// it is on the left or the upper edge or between the edges, and outside if
/// it is on the right or the lower edge.
#[verifier::external_body]
fn euclid_contains(r: Rect, p: Point) -> (b: bool)
    requires
        r.bounded(),
        p.bounded(),
    ensures
        b == (r.origin.x <= p.x < r.origin.x + r.size.width && r.origin.y <= p.y < r.origin.y
            + r.size.height),
{
    let e = euclid::default::Rect::new(
        euclid::default::Point2D::new(r.origin.x, r.origin.y),
        euclid::default::Size2D::new(r.size.width, r.size.height),
    );
    e.contains(euclid::default::Point2D::new(p.x, p.y))
}

impl Rect {
    /// The point lies in the rectangle. The left and the upper edge belong
    /// to the rectangle, the right and the lower edge do not.
    pub open spec fn holds(self, p: Point) -> bool {
        let r = self.clamped();
        let q = p.clamped();
        r.origin.x <= q.x < r.origin.x + r.size.width && r.origin.y <= q.y < r.origin.y
            + r.size.height
    }

    pub fn contains(&self, p: &Point) -> (b: bool)
        ensures
            b == self.holds(*p),
    {
        euclid_contains(self.clamp(), p.clamp())
    }

    /// Every number of the value is within the coordinate range.
    pub open spec fn bounded(self) -> bool {
        self.origin.bounded() && self.size.bounded()
    }

    /// The value with every number pinned to the coordinate range.
    pub open spec fn clamped(self) -> Rect {
        Rect { origin: self.origin.clamped(), size: self.size.clamped() }
    }

    /// No pixel lies within the rectangle.
    pub open spec fn empty(self) -> bool {
        self.size.empty()
    }

    /// The rectangle moved by `by`.
    pub open spec fn translated(self, by: Point) -> Rect {
        Rect { origin: self.origin.plus(by), size: self.size.clamped() }
    }

    /// The part shared with `other`, if it holds a pixel.
    pub open spec fn intersected(self, other: Rect) -> Option<Rect> {
        shared_part(self.clamped(), other.clamped())
    }

    /// The rectangle grown by `dx` to the left and to the right and by `dy`
    /// upwards and downwards.
    pub open spec fn inflated(self, dx: i32, dy: i32) -> Rect {
        let r = self.clamped();
        let ex = clamp_coord(dx as int);
        let ey = clamp_coord(dy as int);
        Rect {
            origin: Point { x: clamp_coord(r.origin.x - ex), y: clamp_coord(r.origin.y - ey) },
            size: Size {
                width: clamp_coord(r.size.width + ex + ex),
                height: clamp_coord(r.size.height + ey + ey),
            },
        }
    }

    pub fn new(origin: Point, size: Size) -> (r: Rect)
        ensures
            r == (Rect { origin, size }).clamped(),
            r.bounded(),
    {
        Rect { origin: origin.clamp(), size: size.clamp() }
    }

    pub fn zero() -> (r: Rect)
        ensures
            r == (Rect { origin: Point { x: 0, y: 0 }, size: Size { width: 0, height: 0 } }),
    {
        Rect { origin: Point::zero(), size: Size::zero() }
    }

    pub fn clamp(&self) -> (r: Rect)
        ensures
            r == self.clamped(),
            r.bounded(),
    {
        Rect { origin: self.origin.clamp(), size: self.size.clamp() }
    }

    pub fn is_empty(&self) -> (b: bool)
        ensures
            b == self.empty(),
    {
        self.size.is_empty()
    }

    pub fn translate(&self, by: &Point) -> (r: Rect)
        ensures
            r == self.translated(*by),
            r.bounded(),
    {
        euclid_translate(self.clamp(), by.clamp()).clamp()
    }

    pub fn intersection(&self, other: &Rect) -> (r: Option<Rect>)
        ensures
            r == self.intersected(*other),
            r matches Some(s) ==> s.bounded() && !s.empty(),
    {
        euclid_intersection(self.clamp(), other.clamp())
    }

    pub fn inflate(&self, dx: i32, dy: i32) -> (r: Rect)
        ensures
            r == self.inflated(dx, dy),
            r.bounded(),
    {
        euclid_inflate(self.clamp(), clamp(dx), clamp(dy)).clamp()
    }
}

/// A clip that cuts nothing of interest away: it stands where no clip has
/// been set yet.
pub open spec fn max_rect() -> Rect {
    Rect {
        origin: Point { x: -1000i32, y: -1000i32 },
        size: Size { width: 10000i32, height: 10000i32 },
    }
}

pub fn max_rect_value() -> (r: Rect)
    ensures
        r == max_rect(),
        r.bounded(),
{
    Rect { origin: Point { x: -1000, y: -1000 }, size: Size { width: 10000, height: 10000 } }
}

/// A point on the left or the upper edge of a bounded rectangle that holds
/// a pixel is in it, and no point on the right or the lower edge is.
pub proof fn lemma_edges(r: Rect, p: Point)
    requires
        r.bounded(),
        p.bounded(),
        !r.empty(),
    ensures
        p.x == r.origin.x && r.origin.y <= p.y < r.origin.y + r.size.height ==> r.holds(p),
        p.y == r.origin.y && r.origin.x <= p.x < r.origin.x + r.size.width ==> r.holds(p),
        p.x == r.origin.x + r.size.width ==> !r.holds(p),
        p.y == r.origin.y + r.size.height ==> !r.holds(p),
{
}

/// What two rectangles share lies in both of them.
pub proof fn lemma_intersection_within(a: Rect, b: Rect)
    requires
        a.bounded(),
        b.bounded(),
    ensures
        a.intersected(b) matches Some(r) ==> {
            &&& a.origin.x <= r.origin.x
            &&& b.origin.x <= r.origin.x
            &&& r.origin.x + r.size.width <= a.origin.x + a.size.width
            &&& r.origin.x + r.size.width <= b.origin.x + b.size.width
            &&& a.origin.y <= r.origin.y
            &&& b.origin.y <= r.origin.y
            &&& r.origin.y + r.size.height <= a.origin.y + a.size.height
            &&& r.origin.y + r.size.height <= b.origin.y + b.size.height
        },
        a.intersected(b) == b.intersected(a),
{
}

} // verus!
