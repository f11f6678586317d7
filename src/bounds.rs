use vstd::prelude::*;

use crate::objects::{Point, Rectangle, Size};
use embedded_graphics::geometry::{Point as EgPoint, Size as EgSize};
use embedded_graphics::primitives::Rectangle as EgRectangle;

verus! {

/// A rectangle covers no pixel when its width or its height is zero.
pub open spec fn zero_sized(r: Rectangle) -> bool {
    r.size.width == 0 || r.size.height == 0
}

/// A rectangle whose sizes and far edges stay inside the `i32` plane, so that its
/// bottom-right pixel can be computed without overflow.
pub open spec fn representable(r: Rectangle) -> bool {
    &&& r.size.width <= i32::MAX
    &&& r.size.height <= i32::MAX
    &&& r.top_left.x + r.size.width <= i32::MAX
    &&& r.top_left.y + r.size.height <= i32::MAX
}

/// Two rectangles share at least one pixel.
pub open spec fn overlaps(a: Rectangle, b: Rectangle) -> bool {
    &&& !zero_sized(a)
    &&& !zero_sized(b)
    &&& a.top_left.x < b.top_left.x + b.size.width
    &&& b.top_left.x < a.top_left.x + a.size.width
    &&& a.top_left.y < b.top_left.y + b.size.height
    &&& b.top_left.y < a.top_left.y + a.size.height
}

/// The greater of `a` and `b`.
pub open spec fn max_of(a: int, b: int) -> int {
    if a >= b {
        a
    } else {
        b
    }
}

/// The lesser of `a` and `b`.
pub open spec fn min_of(a: int, b: int) -> int {
    if a <= b {
        a
    } else {
        b
    }
}

/// The pixels that two overlapping rectangles share, as a rectangle.
pub open spec fn common_part(a: Rectangle, b: Rectangle) -> Rectangle {
    let left = max_of(a.top_left.x as int, b.top_left.x as int);
    let top = max_of(a.top_left.y as int, b.top_left.y as int);
    let right = min_of(a.top_left.x + a.size.width, b.top_left.x + b.size.width);
    let bottom = min_of(a.top_left.y + a.size.height, b.top_left.y + b.size.height);
    Rectangle {
        top_left: Point { x: left as i32, y: top as i32 },
        size: Size { width: (right - left) as u32, height: (bottom - top) as u32 },
    }
}

/// Relies on embedded_graphics' Rectangle::intersection: the shared part of two
/// overlapping rectangles, else a zero-sized rectangle. Its bottom-right computation
/// adds the size to the corner in `i32`, hence `representable`.
#[verifier::external_body]
fn intersection(a: Rectangle, b: Rectangle) -> (r: Rectangle)
    requires
        representable(a),
        representable(b),
    ensures
        overlaps(a, b) ==> r == common_part(a, b),
        !overlaps(a, b) ==> zero_sized(r),
{
    let ea = EgRectangle::new(EgPoint::new(a.top_left.x, a.top_left.y), EgSize::new(a.size.width, a.size.height));
    let eb = EgRectangle::new(EgPoint::new(b.top_left.x, b.top_left.y), EgSize::new(b.size.width, b.size.height));
    let r = ea.intersection(&eb);
    Rectangle::new(Point::new(r.top_left.x, r.top_left.y), Size::new(r.size.width, r.size.height))
}

/// Whether `inner_box` shares at least one pixel with `container`. Every drawing
/// call asks this before it rasterizes. Despite the name this tests for any
/// overlap, not for full containment.
pub fn is_inside(container: &Rectangle, inner_box: &Rectangle) -> (r: bool)
    requires
        representable(*container),
        representable(*inner_box),
    ensures
        r == overlaps(*container, *inner_box),
{
    let common = intersection(*container, *inner_box);
    !(common.size.width == 0 || common.size.height == 0)
}

/// Whether `r` can be handed to `is_inside`.
pub fn is_representable(r: &Rectangle) -> (b: bool)
    ensures
        b == representable(*r),
{
    r.size.width <= i32::MAX as u32 && r.size.height <= i32::MAX as u32 && r.top_left.x as i64
        + r.size.width as i64 <= i32::MAX as i64 && r.top_left.y as i64 + r.size.height as i64
        <= i32::MAX as i64
}

} // verus!
