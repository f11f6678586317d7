use vstd::prelude::*;

verus! {

/// A position on the drawing plane; it may lie off the canvas.
#[derive(Clone, Copy, Debug, PartialEq, Eq, Structural)]
pub struct Point {
    pub x: i32,
    pub y: i32,
}

/// A width and a height; zero is a legal, degenerate size.
#[derive(Clone, Copy, Debug, PartialEq, Eq, Structural)]
pub struct Size {
    pub width: u32,
    pub height: u32,
}

/// An axis-aligned rectangle given by its top-left corner and its size.
#[derive(Clone, Copy, Debug, PartialEq, Eq, Structural)]
pub struct Rectangle {
    pub top_left: Point,
    pub size: Size,
}

/// An opaque RGB color.
#[derive(Clone, Copy, Debug, PartialEq, Eq, Structural)]
pub struct Color {
    pub red: u8,
    pub green: u8,
    pub blue: u8,
}

/// The radii of the four corners of a rounded rectangle.
#[derive(Clone, Copy, Debug, PartialEq, Eq, Structural)]
pub struct Corners {
    pub top_left: Size,
    pub top_right: Size,
    pub bottom_right: Size,
    pub bottom_left: Size,
}

/// How a shape is painted: each part is optional, and an empty style paints nothing.
#[derive(Clone, Copy, Debug, PartialEq, Eq, Structural)]
pub struct Style {
    pub fill_color: Option<Color>,
    pub stroke_color: Option<Color>,
    pub stroke_width: Option<u32>,
}

/// Horizontal placement of a text relative to its position.
#[derive(Clone, Copy, Debug, PartialEq, Eq, Structural)]
pub enum Alignment {
    Left,
    Center,
    Right,
}

/// Vertical placement of a text relative to its position.
#[derive(Clone, Copy, Debug, PartialEq, Eq, Structural)]
pub enum Baseline {
    Top,
    Bottom,
    Middle,
    Alphabetic,
}

/// Optional alignment and baseline of a text.
#[derive(Clone, Copy, Debug, PartialEq, Eq, Structural)]
pub struct TextStyle {
    pub alignment: Option<Alignment>,
    pub baseline: Option<Baseline>,
}

/// One pixel that a rasterized shape asks to be painted.
#[derive(Clone, Copy, Debug, PartialEq, Eq, Structural)]
pub struct Pixel {
    pub x: i32,
    pub y: i32,
    pub color: Color,
}

/// The largest `r` with `r * r <= n`, searched downwards from `k`.
pub open spec fn root_from(n: nat, k: nat) -> nat
    decreases k,
{
    if k * k <= n || k == 0 {
        k
    } else {
        root_from(n, (k - 1) as nat)
    }
}

/// The integer square root of `n`, rounded down.
pub open spec fn floor_sqrt(n: nat) -> nat {
    root_from(n, n)
}

/// The magnitude of `v`.
pub open spec fn abs(v: int) -> int {
    if v < 0 {
        -v
    } else {
        v
    }
}

/// The lesser of `a` and `b`.
pub open spec fn min(a: int, b: int) -> int {
    if a <= b {
        a
    } else {
        b
    }
}

/// The squared Euclidean distance between two points.
pub open spec fn squared_distance(a: Point, b: Point) -> nat {
    ((a.x - b.x) * (a.x - b.x) + (a.y - b.y) * (a.y - b.y)) as nat
}

/// The Euclidean distance between two points, truncated to an integer.
pub open spec fn point_distance(a: Point, b: Point) -> int {
    floor_sqrt(squared_distance(a, b)) as int
}

/// The right edge of a rectangle: its left edge plus its width.
pub open spec fn right(r: Rectangle) -> int {
    r.top_left.x + r.size.width
}

/// The bottom edge of a rectangle: its top edge plus its height.
pub open spec fn bottom(r: Rectangle) -> int {
    r.top_left.y + r.size.height
}

/// Bounding-box overlap, inclusive of touching edges: two rectangles collide
/// unless one lies entirely above, below, left or right of the other.
pub open spec fn collides(a: Rectangle, b: Rectangle) -> bool {
    !(bottom(a) < b.top_left.y || a.top_left.y > bottom(b) || right(a) < b.top_left.x
        || a.top_left.x > right(b))
}

/// The unit rectangle whose top-left corner is `p`.
pub open spec fn unit_at(p: Point) -> Rectangle {
    Rectangle { top_left: p, size: Size { width: 1, height: 1 } }
}

/// A point meets a rectangle when its unit square collides with it.
pub open spec fn meets(r: Rectangle, p: Point) -> bool {
    collides(r, unit_at(p))
}

/// The nearest of the four corners, by truncated Euclidean distance.
pub open spec fn corner_distance(r: Rectangle, p: Point) -> int {
    min(
        min(
            floor_sqrt(corner_squared(r.top_left.x as int, r.top_left.y as int, p)) as int,
            floor_sqrt(corner_squared(right(r), r.top_left.y as int, p)) as int,
        ),
        min(
            floor_sqrt(corner_squared(right(r), bottom(r), p)) as int,
            floor_sqrt(corner_squared(r.top_left.x as int, bottom(r), p)) as int,
        ),
    )
}

/// The squared distance from the corner `(x, y)` to `p`, in unbounded integers.
pub open spec fn corner_squared(x: int, y: int, p: Point) -> nat {
    ((x - p.x) * (x - p.x) + (y - p.y) * (y - p.y)) as nat
}

/// The distance from a rectangle to a point: zero where they meet; the horizontal
/// gap where the point lies in the vertical span; the vertical gap where it lies in
/// the horizontal span; else the distance to the nearest corner.
pub open spec fn rect_distance(r: Rectangle, p: Point) -> int {
    if meets(r, p) {
        0
    } else if r.top_left.y <= p.y <= bottom(r) {
        min(abs(right(r) - p.x), abs(r.top_left.x - p.x))
    } else if r.top_left.x <= p.x <= right(r) {
        min(abs(r.top_left.y - p.y), abs(bottom(r) - p.y))
    } else {
        corner_distance(r, p)
    }
}

proof fn lemma_root_from(n: nat, k: nat, r: nat)
    requires
        r * r <= n < (r + 1) * (r + 1),
        r <= k,
    ensures
        root_from(n, k) == r,
    decreases k,
{
    if k * k <= n {
        if k > r {
            assert((r + 1) * (r + 1) <= k * k) by (nonlinear_arith)
                requires
                    k >= r + 1,
            ;
        }
    } else {
        if k == r {
        } else {
            lemma_root_from(n, (k - 1) as nat, r);
        }
    }
}

/// Relies on num::integer::sqrt: the truncated principal square root of an
/// unsigned integer.
#[verifier::external_body]
fn truncated_sqrt(n: u128) -> (r: u128)
    ensures
        r * r <= n < (r + 1) * (r + 1),
{
    num::integer::sqrt(n)
}

/// The truncated square root of `n`, as the spec function names it.
fn sqrt_of(n: u128) -> (r: u128)
    ensures
        r == floor_sqrt(n as nat),
        r * r <= n,
{
    let r = truncated_sqrt(n);
    proof {
        assert(r <= n) by (nonlinear_arith)
            requires
                r * r <= n,
        ;
        lemma_root_from(n as nat, n as nat, r as nat);
    }
    r
}

/// The squared distance between `(x1, y1)` and `(x2, y2)`, exactly.
fn squared_between(x1: i64, y1: i64, x2: i64, y2: i64) -> (r: u128)
    requires
        -0x4_0000_0000 <= x1 <= 0x4_0000_0000,
        -0x4_0000_0000 <= y1 <= 0x4_0000_0000,
        -0x4_0000_0000 <= x2 <= 0x4_0000_0000,
        -0x4_0000_0000 <= y2 <= 0x4_0000_0000,
    ensures
        r == (x1 - x2) * (x1 - x2) + (y1 - y2) * (y1 - y2),
        r <= 0x80_0000_0000_0000_0000,
{
    let dx: i128 = x1 as i128 - x2 as i128;
    let dy: i128 = y1 as i128 - y2 as i128;
    assert(dx * dx <= 0x40_0000_0000_0000_0000) by (nonlinear_arith)
        requires
            -0x8_0000_0000 <= dx <= 0x8_0000_0000,
    ;
    assert(dy * dy <= 0x40_0000_0000_0000_0000) by (nonlinear_arith)
        requires
            -0x8_0000_0000 <= dy <= 0x8_0000_0000,
    ;
    assert(dx * dx >= 0 && dy * dy >= 0) by (nonlinear_arith);
    (dx * dx + dy * dy) as u128
}

/// Truncated distance from the corner `(x, y)` to `p`, widened so that it cannot overflow.
fn corner_gap(x: i64, y: i64, p: &Point) -> (r: i64)
    requires
        -0x4_0000_0000 <= x <= 0x4_0000_0000,
        -0x4_0000_0000 <= y <= 0x4_0000_0000,
    ensures
        r == floor_sqrt(corner_squared(x as int, y as int, *p)),
{
    let sq = squared_between(x, y, p.x as i64, p.y as i64);
    let r = sqrt_of(sq);
    proof {
        let n = sq as nat;
        assert(r < 0x40_0000_0000) by (nonlinear_arith)
            requires
                r * r <= n,
                n <= 0x80_0000_0000_0000_0000,
        ;
    }
    r as i64
}

impl Point {
    pub fn new(x: i32, y: i32) -> (r: Point)
        ensures
            r == (Point { x, y }),
    {
        Point { x, y }
    }

    /// Euclidean distance to `other`, truncated towards zero.
    pub fn distance(&self, other_point: &Point) -> (r: i32)
        requires
            point_distance(*self, *other_point) <= i32::MAX,
        ensures
            r == point_distance(*self, *other_point),
    {
        let d = corner_gap(self.x as i64, self.y as i64, other_point);
        proof {
            assert(corner_squared(self.x as int, self.y as int, *other_point) == squared_distance(
                *self,
                *other_point,
            ));
        }
        d as i32
    }
}

impl Size {
    pub fn new(width: u32, height: u32) -> (r: Size)
        ensures
            r == (Size { width, height }),
    {
        Size { width, height }
    }
}

impl Color {
    pub fn new(red: u8, green: u8, blue: u8) -> (r: Color)
        ensures
            r == (Color { red, green, blue }),
    {
        Color { red, green, blue }
    }
}

impl Pixel {
    pub fn new(x: i32, y: i32, color: Color) -> (r: Pixel)
        ensures
            r == (Pixel { x, y, color }),
    {
        Pixel { x, y, color }
    }
}

impl Corners {
    pub fn new(top_left: Size, top_right: Size, bottom_right: Size, bottom_left: Size) -> (r:
        Corners)
        ensures
            r == (Corners { top_left, top_right, bottom_right, bottom_left }),
    {
        Corners { top_left, top_right, bottom_right, bottom_left }
    }

    /// The same circular radius at all four corners.
    pub open spec fn uniform_spec(radius: u32) -> Corners {
        let s = Size { width: radius, height: radius };
        Corners { top_left: s, top_right: s, bottom_right: s, bottom_left: s }
    }

    /// The same circular radius at all four corners.
    pub fn uniform(radius: u32) -> (r: Corners)
        ensures
            r == Corners::uniform_spec(radius),
    {
        let s = Size { width: radius, height: radius };
        Corners { top_left: s, top_right: s, bottom_right: s, bottom_left: s }
    }
}

impl Style {
    pub fn new(fill_color: Option<Color>, stroke_color: Option<Color>, stroke_width: Option<u32>) -> (r:
        Style)
        ensures
            r == (Style { fill_color, stroke_color, stroke_width }),
    {
        Style { fill_color, stroke_color, stroke_width }
    }
}

/// The alignment that a name selects: "center" and "right" select those, any other
/// name selects left.
pub open spec fn alignment_named(name: Seq<char>) -> Alignment {
    if name == "center"@ {
        Alignment::Center
    } else if name == "right"@ {
        Alignment::Right
    } else {
        Alignment::Left
    }
}

/// The baseline that a name selects: "top", "bottom" and "middle" select those, any
/// other name selects alphabetic.
pub open spec fn baseline_named(name: Seq<char>) -> Baseline {
    if name == "top"@ {
        Baseline::Top
    } else if name == "bottom"@ {
        Baseline::Bottom
    } else if name == "middle"@ {
        Baseline::Middle
    } else {
        Baseline::Alphabetic
    }
}

impl TextStyle {
    /// A text style from optional names; an absent name leaves that part unset.
    pub fn new(alignment: Option<String>, baseline: Option<String>) -> (r: TextStyle)
        ensures
            r.alignment == (match alignment {
                Some(a) => Some(alignment_named(a@)),
                None => None,
            }),
            r.baseline == (match baseline {
                Some(b) => Some(baseline_named(b@)),
                None => None,
            }),
    {
        let alignment = match alignment {
            Some(value) => {
                if value == "center".to_owned() {
                    Some(Alignment::Center)
                } else if value == "right".to_owned() {
                    Some(Alignment::Right)
                } else {
                    Some(Alignment::Left)
                }
            },
            None => None,
        };
        let baseline = match baseline {
            Some(value) => {
                if value == "top".to_owned() {
                    Some(Baseline::Top)
                } else if value == "bottom".to_owned() {
                    Some(Baseline::Bottom)
                } else if value == "middle".to_owned() {
                    Some(Baseline::Middle)
                } else {
                    Some(Baseline::Alphabetic)
                }
            },
            None => None,
        };
        TextStyle { alignment, baseline }
    }
}

impl Rectangle {
    pub fn new(top_left: Point, size: Size) -> (r: Rectangle)
        ensures
            r == (Rectangle { top_left, size }),
    {
        Rectangle { top_left, size }
    }

    /// Whether the two rectangles overlap or touch.
    pub fn collide(&self, other_box: &Rectangle) -> (r: bool)
        ensures
            r == collides(*self, *other_box),
    {
        let a_right = self.top_left.x as i64 + self.size.width as i64;
        let a_bottom = self.top_left.y as i64 + self.size.height as i64;
        let b_right = other_box.top_left.x as i64 + other_box.size.width as i64;
        let b_bottom = other_box.top_left.y as i64 + other_box.size.height as i64;
        !(a_bottom < other_box.top_left.y as i64 || (self.top_left.y as i64) > b_bottom || a_right
            < other_box.top_left.x as i64 || (self.top_left.x as i64) > b_right)
    }

    /// Whether the unit square at `point` collides with this rectangle.
    pub fn intersect(&self, point: &Point) -> (r: bool)
        ensures
            r == meets(*self, *point),
    {
        self.collide(&Rectangle::new(*point, Size::new(1, 1)))
    }

    /// The distance from this rectangle to `point`: see `rect_distance`.
    pub fn distance(&self, point: &Point) -> (r: i32)
        requires
            rect_distance(*self, *point) <= i32::MAX,
        ensures
            r == rect_distance(*self, *point),
    {
        if self.intersect(point) {
            return 0;
        }
        let left = self.top_left.x as i64;
        let top = self.top_left.y as i64;
        let rgt = left + self.size.width as i64;
        let bot = top + self.size.height as i64;
        let px = point.x as i64;
        let py = point.y as i64;
        if py >= top && py <= bot {
            let gap_right = if rgt >= px { rgt - px } else { px - rgt };
            let gap_left = if left >= px { left - px } else { px - left };
            return if gap_right <= gap_left { gap_right as i32 } else { gap_left as i32 };
        }
        if px >= left && px <= rgt {
            let gap_top = if top >= py { top - py } else { py - top };
            let gap_bottom = if bot >= py { bot - py } else { py - bot };
            return if gap_top <= gap_bottom { gap_top as i32 } else { gap_bottom as i32 };
        }
        let d1 = corner_gap(left, top, point);
        let d2 = corner_gap(rgt, top, point);
        let d3 = corner_gap(rgt, bot, point);
        let d4 = corner_gap(left, bot, point);
        let m1 = if d1 <= d2 { d1 } else { d2 };
        let m2 = if d3 <= d4 { d3 } else { d4 };
        if m1 <= m2 { m1 as i32 } else { m2 as i32 }
    }
}

/// Two rectangles collide in either order.
pub proof fn lemma_collide_symmetric(a: Rectangle, b: Rectangle)
    ensures
        collides(a, b) == collides(b, a),
{
}

/// The distance from a rectangle to a point is zero exactly when the point meets it.
pub proof fn lemma_distance_zero_iff_meets(r: Rectangle, p: Point)
    ensures
        (rect_distance(r, p) == 0) <==> meets(r, p),
{
    if !meets(r, p) {
        if r.top_left.y <= p.y <= bottom(r) {
        } else if r.top_left.x <= p.x <= right(r) {
        } else {
            lemma_corner_positive(r.top_left.x as int, r.top_left.y as int, p);
            lemma_corner_positive(right(r), r.top_left.y as int, p);
            lemma_corner_positive(right(r), bottom(r), p);
            lemma_corner_positive(r.top_left.x as int, bottom(r), p);
        }
    }
}

/// A corner that differs from `p` in some coordinate lies at truncated distance at least one.
proof fn lemma_corner_positive(x: int, y: int, p: Point)
    requires
        x != p.x || y != p.y,
    ensures
        floor_sqrt(corner_squared(x, y, p)) >= 1,
{
    let n = corner_squared(x, y, p);
    assert((x - p.x) * (x - p.x) >= 0 && (y - p.y) * (y - p.y) >= 0) by (nonlinear_arith);
    assert(n >= 1) by (nonlinear_arith)
        requires
            x != p.x || y != p.y,
            n == (x - p.x) * (x - p.x) + (y - p.y) * (y - p.y),
    ;
    lemma_root_from_positive(n, n);
}

proof fn lemma_root_from_positive(n: nat, k: nat)
    requires
        n >= 1,
        k >= 1,
    ensures
        root_from(n, k) >= 1,
    decreases k,
{
    if k == 1 {
        assert(k * k == 1);
    } else if k * k <= n {
    } else {
        lemma_root_from_positive(n, (k - 1) as nat);
    }
}

} // verus!
