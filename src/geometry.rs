use vstd::prelude::*;

verus! {

/// An axis-aligned box given by its least and greatest corner:
/// `(min_x, min_y, max_x, max_y)`, borders included.
pub type Aabb = (i64, i64, i64, i64);

/// One of the four cardinal directions of travel.
#[derive(Clone, Copy, Debug, PartialEq, Eq, Structural)]
pub enum Direction {
    Left,
    Up,
    Right,
    Down,
}

impl Default for Direction {
    fn default() -> (r: Direction)
        ensures
            r == Direction::Left,
    {
        Direction::Left
    }
}

/// The two movement axes, resolved one after the other each frame.
#[derive(Clone, Copy, Debug, PartialEq, Eq, Structural)]
pub enum Axes {
    Horizontal,
    Vertical,
}

/// A point of the integer world grid.
#[derive(Clone, Copy, Debug, Default, PartialEq, Eq, Structural)]
pub struct Point {
    pub x: i32,
    pub y: i32,
}

impl Point {
    pub fn new(x: i32, y: i32) -> (r: Point)
        ensures
            r.x == x,
            r.y == y,
    {
        Point { x, y }
    }
}

/// An axis-aligned rectangle. `ur` and `dl` are derived from `ul` and `dr`.
#[derive(Clone, Copy, Debug, Default, PartialEq, Eq, Structural)]
pub struct Rect {
    pub ul: Point,
    pub ur: Point,
    pub dl: Point,
    pub dr: Point,
}

/// A circle: every point closer to `origin` than `radius`.
#[derive(Clone, Copy, Debug, Default, PartialEq, Eq, Structural)]
pub struct Circle {
    pub radius: i32,
    pub origin: Point,
}

/// A static collision shape.
#[derive(Clone, Copy, Debug, PartialEq, Eq, Structural)]
pub enum Collider {
    Rectangular(Rect),
    Circular(Circle),
}

pub open spec fn min_int(a: int, b: int) -> int {
    if a <= b {
        a
    } else {
        b
    }
}

pub open spec fn max_int(a: int, b: int) -> int {
    if a <= b {
        b
    } else {
        a
    }
}

pub open spec fn abs_int(a: int) -> int {
    if a < 0 {
        -a
    } else {
        a
    }
}

pub open spec fn clamp_int(v: int, lo: int, hi: int) -> int {
    if v < lo {
        lo
    } else if v > hi {
        hi
    } else {
        v
    }
}

/// The two boxes share at least one point, borders included.
pub open spec fn boxes_meet(a: Aabb, b: Aabb) -> bool {
    a.0 <= b.2 && b.0 <= a.2 && a.1 <= b.3 && b.1 <= a.3
}

/// Every coordinate of the box is within twice the range of an `i32`.
pub open spec fn box_small(b: Aabb) -> bool {
    &&& -0x1_0000_0000 <= b.0 <= 0x1_0000_0000
    &&& -0x1_0000_0000 <= b.1 <= 0x1_0000_0000
    &&& -0x1_0000_0000 <= b.2 <= 0x1_0000_0000
    &&& -0x1_0000_0000 <= b.3 <= 0x1_0000_0000
}

/// The box has its least corner first.
pub open spec fn box_ordered(b: Aabb) -> bool {
    b.0 <= b.2 && b.1 <= b.3
}

impl Rect {
    /// The corners agree with each other: `ur` and `dl` are derived from `ul` and `dr`.
    pub open spec fn wf(&self) -> bool {
        &&& self.ur == Point { x: self.dr.x, y: self.ul.y }
        &&& self.dl == Point { x: self.ul.x, y: self.dr.y }
    }

    /// The smallest box that holds the rectangle.
    pub open spec fn spec_box(&self) -> Aabb {
        (
            min_int(self.ul.x as int, self.dr.x as int) as i64,
            min_int(self.ul.y as int, self.dr.y as int) as i64,
            max_int(self.ul.x as int, self.dr.x as int) as i64,
            max_int(self.ul.y as int, self.dr.y as int) as i64,
        )
    }

    pub fn new(up_left: Point, down_right: Point) -> (r: Rect)
        ensures
            r.wf(),
            r.ul == up_left,
            r.dr == down_right,
    {
        Rect {
            ul: up_left,
            ur: Point::new(down_right.x, up_left.y),
            dl: Point::new(up_left.x, down_right.y),
            dr: down_right,
        }
    }

    /// The rectangle of `w` by `h` grid cells whose upper-left cell is `(x, y)`.
    pub fn new_xywh(x: i32, y: i32, w: i32, h: i32) -> (r: Rect)
        requires
            i32::MIN <= x + w - 1 <= i32::MAX,
            i32::MIN <= y + h - 1 <= i32::MAX,
        ensures
            r.wf(),
            r.ul == (Point { x, y }),
            r.dr == (Point { x: (x + w - 1) as i32, y: (y + h - 1) as i32 }),
    {
        let r = (x as i64 + w as i64 - 1) as i32;
        let d = (y as i64 + h as i64 - 1) as i32;
        Rect::new(Point::new(x, y), Point::new(r, d))
    }

    pub fn to_aabb(&self) -> (r: Aabb)
        ensures
            r == self.spec_box(),
            box_ordered(r),
    {
        let (lx, hx) = if self.ul.x <= self.dr.x {
            (self.ul.x as i64, self.dr.x as i64)
        } else {
            (self.dr.x as i64, self.ul.x as i64)
        };
        let (ly, hy) = if self.ul.y <= self.dr.y {
            (self.ul.y as i64, self.dr.y as i64)
        } else {
            (self.dr.y as i64, self.ul.y as i64)
        };
        (lx, ly, hx, hy)
    }
}

impl Circle {
    pub fn new(rad: i32, orig: Point) -> (r: Circle)
        ensures
            r.radius == rad,
            r.origin == orig,
    {
        Circle { radius: rad, origin: orig }
    }

    /// The box spanned by the corners `origin - radius` and `origin + radius`, least
    /// corner first: `origin ± |radius|`.
    pub open spec fn spec_box(&self) -> Aabb {
        (
            (self.origin.x - abs_int(self.radius as int)) as i64,
            (self.origin.y - abs_int(self.radius as int)) as i64,
            (self.origin.x + abs_int(self.radius as int)) as i64,
            (self.origin.y + abs_int(self.radius as int)) as i64,
        )
    }

    pub fn to_aabb(&self) -> (r: Aabb)
        ensures
            r == self.spec_box(),
            box_ordered(r),
    {
        let rad: i64 = if self.radius < 0 {
            -(self.radius as i64)
        } else {
            self.radius as i64
        };
        (
            self.origin.x as i64 - rad,
            self.origin.y as i64 - rad,
            self.origin.x as i64 + rad,
            self.origin.y as i64 + rad,
        )
    }
}

/// The square of the distance from `(px, py)` to the nearest point of box `b`.
pub open spec fn box_dist2(b: Aabb, px: int, py: int) -> int {
    let dx = px - clamp_int(px, b.0 as int, b.2 as int);
    let dy = py - clamp_int(py, b.1 as int, b.3 as int);
    dx * dx + dy * dy
}

/// The circle holds a point of box `b`: the nearest point of the box lies closer to the
/// centre than the radius, which is not negative.
pub open spec fn circle_meets_box(c: Circle, b: Aabb) -> bool {
    &&& c.radius >= 0
    &&& box_dist2(b, c.origin.x as int, c.origin.y as int) < (c.radius as int) * (c.radius as int)
}

/// The interiors of two rectangles overlap.
pub open spec fn rects_overlap(a: Rect, b: Rect) -> bool {
    &&& a.ul.x < b.dr.x
    &&& b.ul.x < a.dr.x
    &&& a.ul.y < b.dr.y
    &&& b.ul.y < a.dr.y
}

/// Two circles overlap: neither radius is negative, and their centres are closer than
/// the sum of the radii.
pub open spec fn circles_overlap(a: Circle, b: Circle) -> bool {
    let dx = a.origin.x - b.origin.x;
    let dy = a.origin.y - b.origin.y;
    let rs = a.radius + b.radius;
    a.radius >= 0 && b.radius >= 0 && dx * dx + dy * dy < rs * rs
}

/// What `Collider::collide_check` decides, symmetric in its two shapes.
pub open spec fn colliders_overlap(a: Collider, b: Collider) -> bool {
    match (a, b) {
        (Collider::Rectangular(ra), Collider::Rectangular(rb)) => rects_overlap(ra, rb),
        (Collider::Rectangular(r), Collider::Circular(c)) => circle_meets_box(c, r.spec_box()),
        (Collider::Circular(c), Collider::Rectangular(r)) => circle_meets_box(c, r.spec_box()),
        (Collider::Circular(ca), Collider::Circular(cb)) => circles_overlap(ca, cb),
    }
}

/// The squared distance from `(px, py)` to the nearest point of box `b`.
pub(crate) fn box_distance_squared(b: Aabb, px: i64, py: i64) -> (r: i128)
    requires
        box_ordered(b),
        i32::MIN <= px <= i32::MAX,
        i32::MIN <= py <= i32::MAX,
        i32::MIN - i32::MAX <= b.0 && b.2 <= i32::MAX - i32::MIN,
        i32::MIN - i32::MAX <= b.1 && b.3 <= i32::MAX - i32::MIN,
    ensures
        r == box_dist2(b, px as int, py as int),
{
    let qx: i64 = if px < b.0 {
        b.0
    } else if px > b.2 {
        b.2
    } else {
        px
    };
    let qy: i64 = if py < b.1 {
        b.1
    } else if py > b.3 {
        b.3
    } else {
        py
    };
    let dx = (px - qx) as i128;
    let dy = (py - qy) as i128;
    proof {
        lemma_square_bound(dx as int, 0x4_0000_0000);
        lemma_square_bound(dy as int, 0x4_0000_0000);
    }
    dx * dx + dy * dy
}

fn circle_meets_rect(c: &Circle, r: &Rect) -> (res: bool)
    ensures
        res == circle_meets_box(*c, r.spec_box()),
{
    let b = r.to_aabb();
    let d2 = box_distance_squared(b, c.origin.x as i64, c.origin.y as i64);
    let rad = c.radius as i128;
    proof {
        lemma_square_bound(rad as int, 0x4_0000_0000);
    }
    c.radius >= 0 && d2 < rad * rad
}

impl Rect {
    fn collide_check(&self, other: &Collider) -> (r: bool)
        ensures
            r == colliders_overlap(Collider::Rectangular(*self), *other),
    {
        match other {
            Collider::Rectangular(rect) => {
                rect.ul.x < self.dr.x && self.ul.x < rect.dr.x && rect.ul.y < self.dr.y
                    && self.ul.y < rect.dr.y
            },
            Collider::Circular(circ) => circle_meets_rect(circ, self),
        }
    }
}

impl Circle {
    fn collide_check(&self, other: &Collider) -> (r: bool)
        ensures
            r == colliders_overlap(Collider::Circular(*self), *other),
    {
        match other {
            Collider::Rectangular(rect) => circle_meets_rect(self, rect),
            Collider::Circular(circ) => {
                let dx = self.origin.x as i128 - circ.origin.x as i128;
                let dy = self.origin.y as i128 - circ.origin.y as i128;
                let rs = self.radius as i128 + circ.radius as i128;
                proof {
                    lemma_square_bound(dx as int, 0x4_0000_0000);
                    lemma_square_bound(dy as int, 0x4_0000_0000);
                    lemma_square_bound(rs as int, 0x4_0000_0000);
                }
                self.radius >= 0 && circ.radius >= 0 && dx * dx + dy * dy < rs * rs
            },
        }
    }
}

impl Collider {
    /// The two shapes overlap; the test is symmetric.
    pub fn collide_check(&self, other: &Collider) -> (r: bool)
        ensures
            r == colliders_overlap(*self, *other),
            r == colliders_overlap(*other, *self),
    {
        proof {
            lemma_overlap_symmetric(*self, *other);
        }
        match other {
            Collider::Rectangular(rect) => rect.collide_check(self),
            Collider::Circular(circ) => circ.collide_check(self),
        }
    }

    pub open spec fn spec_box(&self) -> Aabb {
        match self {
            Collider::Rectangular(r) => r.spec_box(),
            Collider::Circular(c) => c.spec_box(),
        }
    }

    /// The smallest box that holds the shape.
    pub fn to_aabb(&self) -> (r: Aabb)
        ensures
            r == self.spec_box(),
            box_ordered(r),
    {
        match self {
            Collider::Rectangular(rect) => rect.to_aabb(),
            Collider::Circular(circ) => circ.to_aabb(),
        }
    }

    pub fn rect(&self) -> (r: Option<&Rect>)
        ensures
            self is Rectangular ==> r == Some(&self->Rectangular_0),
            self is Circular ==> r.is_none(),
    {
        match self {
            Collider::Rectangular(value) => Some(value),
            _ => None,
        }
    }

    pub fn circle(&self) -> (r: Option<&Circle>)
        ensures
            self is Circular ==> r == Some(&self->Circular_0),
            self is Rectangular ==> r.is_none(),
    {
        match self {
            Collider::Circular(value) => Some(value),
            _ => None,
        }
    }
}

impl Default for Collider {
    fn default() -> (r: Collider)
        ensures
            r == Collider::Rectangular(
                Rect {
                    ul: Point { x: 0, y: 0 },
                    ur: Point { x: 0, y: 0 },
                    dl: Point { x: 0, y: 0 },
                    dr: Point { x: 0, y: 0 },
                },
            ),
    {
        let p = Point::new(0, 0);
        Collider::Rectangular(Rect { ul: p, ur: p, dl: p, dr: p })
    }
}

pub(crate) proof fn lemma_square_bound(a: int, m: int)
    requires
        -m <= a <= m,
    ensures
        0 <= a * a <= m * m,
{
    assert(0 <= a * a <= m * m) by (nonlinear_arith)
        requires
            -m <= a <= m,
    ;
}

/// Whether two shapes overlap does not depend on their order.
pub proof fn lemma_overlap_symmetric(a: Collider, b: Collider)
    ensures
        colliders_overlap(a, b) == colliders_overlap(b, a),
{
    if let (Collider::Circular(ca), Collider::Circular(cb)) = (a, b) {
        let dx = ca.origin.x - cb.origin.x;
        let dy = ca.origin.y - cb.origin.y;
        assert(dx * dx == (-dx) * (-dx) && dy * dy == (-dy) * (-dy)) by (nonlinear_arith);
    }
}

/// The bounding box of a shape has small coordinates.
pub proof fn lemma_collider_box_small(c: Collider)
    ensures
        box_small(c.spec_box()),
{
}

/// A circle that holds a point of a box has a bounding box that meets it.
pub proof fn lemma_circle_meets_box_bounds(c: Circle, b: Aabb)
    requires
        box_ordered(b),
        circle_meets_box(c, b),
    ensures
        boxes_meet(c.spec_box(), b),
{
    let px = c.origin.x as int;
    let py = c.origin.y as int;
    let dx = px - clamp_int(px, b.0 as int, b.2 as int);
    let dy = py - clamp_int(py, b.1 as int, b.3 as int);
    let r = c.radius as int;
    assert(abs_int(dx) < abs_int(r) && abs_int(dy) < abs_int(r)) by (nonlinear_arith)
        requires
            dx * dx + dy * dy < r * r,
            r >= 0,
    ;
}

} // verus!
