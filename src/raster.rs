use vstd::prelude::*;

use crate::bounds::representable;
use crate::objects::{Alignment, Baseline, Color, Corners, Pixel, Point, Rectangle, Size, Style};
use embedded_graphics::geometry::{Angle, Dimensions, Point as EgPoint, Size as EgSize};
use embedded_graphics::mono_font::{MonoFont, MonoTextStyle};
use embedded_graphics::pixelcolor::{Rgb888, RgbColor};
use embedded_graphics::primitives::{
    Arc, Circle, CornerRadii, CornerRadiiBuilder, Ellipse, Line, Polyline, PrimitiveStyle,
    Rectangle as EgRectangle, RoundedRectangle, Sector, Triangle,
};
use embedded_graphics::text::{
    Alignment as EgAlignment, Baseline as EgBaseline, Text, TextStyle as EgTextStyle,
    TextStyleBuilder,
};
use embedded_graphics::Pixel as EgPixel;
use embedded_graphics::primitives::Primitive;

verus! {

/// An angle of the rendering library, carried through unchanged.
#[verifier::external_type_specification]
#[verifier::external_body]
pub struct ExAngle(Angle);

/// The corner radii of a rounded rectangle of the rendering library.
#[verifier::external_type_specification]
#[verifier::external_body]
pub struct ExCornerRadii(CornerRadii);

/// A monospaced font face of the rendering library.
#[verifier::external_type_specification]
#[verifier::external_body]
pub struct ExMonoFont<'a>(MonoFont<'a>);

/// A text style of the rendering library.
#[verifier::external_type_specification]
#[verifier::external_body]
pub struct ExTextStyle(EgTextStyle);

/// The largest coordinate magnitude the rasterizers handle: they double coordinates
/// and step Bresenham errors by twice a coordinate difference, in `i32`.
pub const PLANE_LIMIT: i32 = 0x1000_0000;

/// The largest coordinate magnitude of a joined outline (triangle, thick polyline):
/// its line equations multiply a vertex by two segment normals in `i32`.
pub const JOIN_LIMIT: i32 = 16384;

/// The largest per-axis extent of one segment of a joined outline: its joins square
/// the determinant of two segment normals in `i32`.
pub const SEGMENT_LIMIT: i32 = 152;

/// The largest side of a doubled-axis ellipse test: offsets are squared in `i32`
/// and summed in `u32`.
pub const AXIS_LIMIT: u32 = 46340;

/// The fixed font faces that text is set in, smallest to largest.
#[derive(Clone, Copy, Debug, PartialEq, Eq, Structural)]
pub enum Font {
    Point7,
    Point9,
    Point10,
    Point12,
    Point14,
    Point18,
    Point24,
}

/// The stroke width that a style asks for; none means zero.
pub open spec fn stroke_of(style: Style) -> int {
    match style.stroke_width {
        Some(w) => w as int,
        None => 0,
    }
}

/// A coordinate within the plane limit on either side of the origin.
pub open spec fn coord_ok(v: int) -> bool {
    -PLANE_LIMIT <= v <= PLANE_LIMIT
}

/// A point whose coordinates are both within the limit.
pub open spec fn point_ok(p: Point) -> bool {
    coord_ok(p.x as int) && coord_ok(p.y as int)
}

/// The rectangle spanned by two corner points, both included.
pub open spec fn span_box(x0: int, y0: int, x1: int, y1: int) -> Rectangle {
    Rectangle {
        top_left: Point {
            x: (if x0 <= x1 { x0 } else { x1 }) as i32,
            y: (if y0 <= y1 { y0 } else { y1 }) as i32,
        },
        size: Size {
            width: ((if x0 <= x1 { x1 - x0 } else { x0 - x1 }) + 1) as u32,
            height: ((if y0 <= y1 { y1 - y0 } else { y0 - y1 }) + 1) as u32,
        },
    }
}

/// The square of side `diameter` whose top-left corner is `top_left`.
pub open spec fn square_at(top_left: Point, diameter: u32) -> Rectangle {
    Rectangle { top_left, size: Size { width: diameter, height: diameter } }
}

/// The least of three values.
pub open spec fn min3(a: int, b: int, c: int) -> int {
    if a <= b && a <= c {
        a
    } else if b <= c {
        b
    } else {
        c
    }
}

/// The greatest of three values.
pub open spec fn max3(a: int, b: int, c: int) -> int {
    if a >= b && a >= c {
        a
    } else if b >= c {
        b
    } else {
        c
    }
}

/// The bounding box of a triangle: the span of its extreme coordinates.
pub open spec fn triangle_box_of(a: Point, b: Point, c: Point) -> Rectangle {
    span_box(
        min3(a.x as int, b.x as int, c.x as int),
        min3(a.y as int, b.y as int, c.y as int),
        max3(a.x as int, b.x as int, c.x as int),
        max3(a.y as int, b.y as int, c.y as int),
    )
}

/// The least x coordinate of a non-empty point sequence.
pub open spec fn min_x(points: Seq<Point>) -> int
    decreases points.len(),
{
    if points.len() <= 1 {
        points[0].x as int
    } else {
        let rest = min_x(points.drop_last());
        if points.last().x < rest { points.last().x as int } else { rest }
    }
}

/// The least y coordinate of a non-empty point sequence.
pub open spec fn min_y(points: Seq<Point>) -> int
    decreases points.len(),
{
    if points.len() <= 1 {
        points[0].y as int
    } else {
        let rest = min_y(points.drop_last());
        if points.last().y < rest { points.last().y as int } else { rest }
    }
}

/// The greatest x coordinate of a non-empty point sequence.
pub open spec fn max_x(points: Seq<Point>) -> int
    decreases points.len(),
{
    if points.len() <= 1 {
        points[0].x as int
    } else {
        let rest = max_x(points.drop_last());
        if points.last().x > rest { points.last().x as int } else { rest }
    }
}

/// The greatest y coordinate of a non-empty point sequence.
pub open spec fn max_y(points: Seq<Point>) -> int
    decreases points.len(),
{
    if points.len() <= 1 {
        points[0].y as int
    } else {
        let rest = max_y(points.drop_last());
        if points.last().y > rest { points.last().y as int } else { rest }
    }
}

/// The bounding box of a polyline: empty at the origin for no points, zero-sized at
/// a single point, else the span of the extreme coordinates.
pub open spec fn polyline_box_of(points: Seq<Point>) -> Rectangle {
    if points.len() == 0 {
        Rectangle { top_left: Point { x: 0, y: 0 }, size: Size { width: 0, height: 0 } }
    } else if points.len() == 1 {
        Rectangle { top_left: points[0], size: Size { width: 0, height: 0 } }
    } else {
        span_box(min_x(points), min_y(points), max_x(points), max_y(points))
    }
}

/// Two corners whose difference `with_corners` computes in `i32`.
pub open spec fn span_ok(a: Point, b: Point) -> bool {
    i32::MIN <= a.x - b.x <= i32::MAX && i32::MIN <= a.y - b.y <= i32::MAX
}

/// Least and greatest coordinates whose difference fits the same computation.
pub open spec fn spread_ok(lo: int, hi: int) -> bool {
    hi - lo <= 0x8000_0000
}

/// The vertices of a triangle span no more than its box computation handles.
pub open spec fn triangle_span_ok(a: Point, b: Point, c: Point) -> bool {
    &&& spread_ok(min3(a.x as int, b.x as int, c.x as int), max3(a.x as int, b.x as int, c.x as int))
    &&& spread_ok(min3(a.y as int, b.y as int, c.y as int), max3(a.y as int, b.y as int, c.y as int))
}

/// The vertices of a polyline span no more than its box computation handles.
pub open spec fn polyline_span_ok(points: Seq<Point>) -> bool {
    points.len() < 2 || (spread_ok(min_x(points), max_x(points)) && spread_ok(
        min_y(points),
        max_y(points),
    ))
}

/// The bounding box that the rendering library gives a text: it depends on the
/// font's glyph metrics, the label, the alignment and the baseline.
pub uninterp spec fn text_box_of(
    position: Point,
    label: Seq<char>,
    font: Font,
    alignment: Alignment,
    baseline: Baseline,
) -> Rectangle;

/// The pixels the rendering library emits for a styled line, in order.
pub uninterp spec fn line_pixels_of(start: Point, end: Point, style: Style) -> Seq<Pixel>;

/// The pixels the rendering library emits for a styled circle, in order.
pub uninterp spec fn circle_pixels_of(top_left: Point, diameter: u32, style: Style) -> Seq<Pixel>;

/// The pixels the rendering library emits for a styled rectangle, in order.
pub uninterp spec fn rectangle_pixels_of(top_left: Point, size: Size, style: Style) -> Seq<Pixel>;

/// The pixels the rendering library emits for a styled rounded rectangle, in order.
pub uninterp spec fn rounded_pixels_of(
    top_left: Point,
    size: Size,
    corners: Corners,
    style: Style,
) -> Seq<Pixel>;

/// The pixels the rendering library emits for a styled ellipse, in order.
pub uninterp spec fn ellipse_pixels_of(top_left: Point, size: Size, style: Style) -> Seq<Pixel>;

/// The pixels the rendering library emits for a styled triangle, in order.
pub uninterp spec fn triangle_pixels_of(a: Point, b: Point, c: Point, style: Style) -> Seq<Pixel>;

/// The pixels the rendering library emits for a styled polyline, in order.
pub uninterp spec fn polyline_pixels_of(points: Seq<Point>, style: Style) -> Seq<Pixel>;

/// A line the rasterizer draws without overflow. Its thick-line walk squares an
/// accumulator that stays below `2 (w + 1) |delta|` in `i32`, with `w` the stroke
/// width and a zero-length line measured as a unit one.
pub open spec fn line_ok(start: Point, end: Point, style: Style) -> bool {
    let dx = end.x - start.x;
    let dy = end.y - start.y;
    let d = if dx * dx + dy * dy == 0 { 1 } else { dx * dx + dy * dy };
    &&& point_ok(start)
    &&& point_ok(end)
    &&& 4 * (stroke_of(style) + 1) * (stroke_of(style) + 1) * d <= i32::MAX
}

/// A circle, arc or sector the rasterizer draws without overflow: it squares and
/// sums doubled offsets within the stroked circle in `i32`.
pub open spec fn round_ok(top_left: Point, diameter: u32, style: Style) -> bool {
    point_ok(top_left) && diameter + 2 * stroke_of(style) <= 32767
}

/// A rectangle the rasterizer draws without overflow: its far and stroked edges stay
/// in `i32`.
pub open spec fn rectangle_ok(top_left: Point, size: Size, style: Style) -> bool {
    &&& point_ok(top_left)
    &&& size.width <= PLANE_LIMIT
    &&& size.height <= PLANE_LIMIT
    &&& stroke_of(style) <= PLANE_LIMIT
}

/// Axes (in pixels) of an ellipse test that does not overflow: equal axes are tested
/// as a circle, `x^2 + y^2` in `u32`; others as `b x^2 + a y^2` in `u32`, which
/// bounds the product of the axes.
pub open spec fn axes_ok(width: int, height: int) -> bool {
    &&& width <= AXIS_LIMIT
    &&& height <= AXIS_LIMIT
    &&& (width == height || width * height <= AXIS_LIMIT)
}

/// A corner whose stroked quadrant, an ellipse of twice the radius, passes the
/// ellipse test. Confinement to the rectangle only shrinks radii.
pub open spec fn radius_ok(radius: Size, style: Style) -> bool {
    axes_ok(2 * (radius.width + stroke_of(style)), 2 * (radius.height + stroke_of(style)))
}

/// A rounded rectangle the rasterizer draws without overflow.
pub open spec fn rounded_ok(top_left: Point, size: Size, corners: Corners, style: Style) -> bool {
    &&& rectangle_ok(top_left, size, style)
    &&& radius_ok(corners.top_left, style)
    &&& radius_ok(corners.top_right, style)
    &&& radius_ok(corners.bottom_right, style)
    &&& radius_ok(corners.bottom_left, style)
}

/// An ellipse the rasterizer draws without overflow, stroke included.
pub open spec fn ellipse_ok(top_left: Point, size: Size, style: Style) -> bool {
    &&& point_ok(top_left)
    &&& axes_ok(size.width + 2 * stroke_of(style), size.height + 2 * stroke_of(style))
}

/// A vertex of a joined outline.
pub open spec fn join_point_ok(p: Point) -> bool {
    -JOIN_LIMIT <= p.x <= JOIN_LIMIT && -JOIN_LIMIT <= p.y <= JOIN_LIMIT
}

/// A segment of a joined outline.
pub open spec fn segment_ok(a: Point, b: Point) -> bool {
    -SEGMENT_LIMIT <= b.x - a.x <= SEGMENT_LIMIT && -SEGMENT_LIMIT <= b.y - a.y <= SEGMENT_LIMIT
}

/// Vertices the rasterizer draws without overflow. A thin open polyline is walked
/// segment by segment; a closed outline or a thick one is built from offset edges,
/// line equations and joins.
pub open spec fn vertices_ok(points: Seq<Point>, closed: bool, style: Style) -> bool {
    if !closed && stroke_of(style) <= 1 {
        forall|i: int| 0 <= i < points.len() ==> #[trigger] point_ok(points[i])
    } else {
        &&& stroke_of(style) <= 106
        &&& forall|i: int| 0 <= i < points.len() ==> #[trigger] join_point_ok(points[i])
        &&& forall|i: int|
            0 < i < points.len() ==> #[trigger] segment_ok(points[i - 1], points[i])
        &&& closed && points.len() > 0 ==> segment_ok(points.last(), points[0])
    }
}

/// A text the text renderer measures and sets without overflow.
pub open spec fn text_ok(position: Point, label: Seq<char>) -> bool {
    point_ok(position) && label.len() <= 0x1_0000
}

/// The pixel lies within `margin` of the square of side `diameter` at `top_left`.
pub open spec fn near_square(p: Pixel, top_left: Point, diameter: u32, margin: int) -> bool {
    &&& top_left.x - margin <= p.x < top_left.x + diameter + margin
    &&& top_left.y - margin <= p.y < top_left.y + diameter + margin
}

/// The pixel lies within `margin` of the rectangle at `top_left` of `size`.
pub open spec fn near_rect(p: Pixel, top_left: Point, size: Size, margin: int) -> bool {
    &&& top_left.x - margin <= p.x < top_left.x + size.width + margin
    &&& top_left.y - margin <= p.y < top_left.y + size.height + margin
}

/// The pixel carries the style's fill or stroke color.
pub open spec fn styled_color(p: Pixel, style: Style) -> bool {
    style.fill_color == Some(p.color) || style.stroke_color == Some(p.color)
}

/// Relies on embedded_graphics' Line::bounding_box, which is
/// `Rectangle::with_corners(start, end)`; that takes `start - end` in `i32`.
#[verifier::external_body]
pub(crate) fn line_box(start: Point, end: Point) -> (r: Rectangle)
    requires
        span_ok(start, end),
    ensures
        r == span_box(start.x as int, start.y as int, end.x as int, end.y as int),
{
    let b = Line::new(EgPoint::new(start.x, start.y), EgPoint::new(end.x, end.y)).bounding_box();
    Rectangle::new(Point::new(b.top_left.x, b.top_left.y), Size::new(b.size.width, b.size.height))
}

/// Relies on embedded_graphics' Circle::bounding_box: the square of the diameter at
/// the top-left corner.
#[verifier::external_body]
pub(crate) fn circle_box(top_left: Point, diameter: u32) -> (r: Rectangle)
    ensures
        r == square_at(top_left, diameter),
{
    let b = Circle::new(EgPoint::new(top_left.x, top_left.y), diameter).bounding_box();
    Rectangle::new(Point::new(b.top_left.x, b.top_left.y), Size::new(b.size.width, b.size.height))
}

/// Relies on embedded_graphics' Arc::bounding_box: the square of the full circle,
/// whatever the angles.
#[verifier::external_body]
pub(crate) fn arc_box(top_left: Point, diameter: u32, start: Angle, sweep: Angle) -> (r: Rectangle)
    ensures
        r == square_at(top_left, diameter),
{
    let b = Arc::new(EgPoint::new(top_left.x, top_left.y), diameter, start, sweep).bounding_box();
    Rectangle::new(Point::new(b.top_left.x, b.top_left.y), Size::new(b.size.width, b.size.height))
}

/// Relies on embedded_graphics' Sector::bounding_box: the square of the full circle,
/// whatever the angles.
#[verifier::external_body]
pub(crate) fn sector_box(top_left: Point, diameter: u32, start: Angle, sweep: Angle) -> (r:
    Rectangle)
    ensures
        r == square_at(top_left, diameter),
{
    let b = Sector::new(EgPoint::new(top_left.x, top_left.y), diameter, start, sweep).bounding_box();
    Rectangle::new(Point::new(b.top_left.x, b.top_left.y), Size::new(b.size.width, b.size.height))
}

/// Relies on embedded_graphics' Ellipse::bounding_box: the ellipse's own rectangle.
#[verifier::external_body]
pub(crate) fn ellipse_box(top_left: Point, size: Size) -> (r: Rectangle)
    ensures
        r == (Rectangle { top_left, size }),
{
    let e = Ellipse::new(EgPoint::new(top_left.x, top_left.y), EgSize::new(size.width, size.height));
    let b = e.bounding_box();
    Rectangle::new(Point::new(b.top_left.x, b.top_left.y), Size::new(b.size.width, b.size.height))
}

/// Relies on embedded_graphics' Triangle::bounding_box: `with_corners` of the least and
/// the greatest coordinates.
#[verifier::external_body]
pub(crate) fn triangle_box(a: Point, b: Point, c: Point) -> (r: Rectangle)
    requires
        triangle_span_ok(a, b, c),
    ensures
        r == triangle_box_of(a, b, c),
{
    let t = Triangle::new(EgPoint::new(a.x, a.y), EgPoint::new(b.x, b.y), EgPoint::new(c.x, c.y));
    let r = t.bounding_box();
    Rectangle::new(Point::new(r.top_left.x, r.top_left.y), Size::new(r.size.width, r.size.height))
}

/// Relies on embedded_graphics' Polyline::bounding_box: zero for no vertex, zero-sized
/// at a lone vertex, else `with_corners` of the least and the greatest coordinates.
#[verifier::external_body]
pub(crate) fn polyline_box(points: &Vec<Point>) -> (r: Rectangle)
    requires
        polyline_span_ok(points@),
    ensures
        r == polyline_box_of(points@),
{
    let v: Vec<EgPoint> = points.iter().map(|p| EgPoint::new(p.x, p.y)).collect();
    let b = Polyline::new(&v).bounding_box();
    Rectangle::new(Point::new(b.top_left.x, b.top_left.y), Size::new(b.size.width, b.size.height))
}

/// Relies on embedded_graphics' Text::bounding_box with a ProFont face: a function of
/// the position, label, face, alignment and baseline, whose far edges stay in `i32` for
/// a position and label within `text_ok`.
#[verifier::external_body]
pub(crate) fn text_box(
    position: Point,
    label: &str,
    font: Font,
    alignment: Alignment,
    baseline: Baseline,
) -> (r: Rectangle)
    requires
        text_ok(position, label@),
    ensures
        r == text_box_of(position, label@, font, alignment, baseline),
        representable(r),
{
    let cs = MonoTextStyle::new(face(font), Rgb888::BLACK);
    let at = EgPoint::new(position.x, position.y);
    let b = Text::with_text_style(label, at, cs, eg_text_style(alignment, baseline)).bounding_box();
    Rectangle::new(Point::new(b.top_left.x, b.top_left.y), Size::new(b.size.width, b.size.height))
}

/// Relies on profont's seven faces, one for each `Font`.
#[verifier::external_body]
fn face(font: Font) -> &'static MonoFont<'static> {
    match font {
        Font::Point7 => &profont::PROFONT_7_POINT,
        Font::Point9 => &profont::PROFONT_9_POINT,
        Font::Point10 => &profont::PROFONT_10_POINT,
        Font::Point12 => &profont::PROFONT_12_POINT,
        Font::Point14 => &profont::PROFONT_14_POINT,
        Font::Point18 => &profont::PROFONT_18_POINT,
        Font::Point24 => &profont::PROFONT_24_POINT,
    }
}

/// Relies on embedded_graphics' TextStyleBuilder: a text style with this alignment
/// and baseline.
#[verifier::external_body]
fn eg_text_style(alignment: Alignment, baseline: Baseline) -> EgTextStyle {
    let a = match alignment {
        Alignment::Left => EgAlignment::Left,
        Alignment::Center => EgAlignment::Center,
        Alignment::Right => EgAlignment::Right,
    };
    let b = match baseline {
        Baseline::Top => EgBaseline::Top,
        Baseline::Bottom => EgBaseline::Bottom,
        Baseline::Middle => EgBaseline::Middle,
        Baseline::Alphabetic => EgBaseline::Alphabetic,
    };
    TextStyleBuilder::new().alignment(a).baseline(b).build()
}

/// Relies on embedded_graphics' styled Line::pixels.
#[verifier::external_body]
pub(crate) fn line_pixels(start: Point, end: Point, style: Style) -> (r: Vec<Pixel>)
    requires
        line_ok(start, end, style),
    ensures
        r@ == line_pixels_of(start, end, style),
        forall|i: int| 0 <= i < r@.len() ==> #[trigger] styled_color(r@[i], style),
{
    let shape = Line::new(EgPoint::new(start.x, start.y), EgPoint::new(end.x, end.y));
    let mut ps = PrimitiveStyle::new();
    ps.fill_color = style.fill_color.map(|c| Rgb888::new(c.red, c.green, c.blue));
    ps.stroke_color = style.stroke_color.map(|c| Rgb888::new(c.red, c.green, c.blue));
    ps.stroke_width = style.stroke_width.unwrap_or(ps.stroke_width);
    shape.into_styled(ps).pixels().map(|EgPixel(p, c)| Pixel::new(p.x, p.y, Color::new(c.r(), c.g(), c.b()))).collect()
}

/// Relies on embedded_graphics' styled Circle::pixels.
#[verifier::external_body]
pub(crate) fn circle_pixels(top_left: Point, diameter: u32, style: Style) -> (r: Vec<Pixel>)
    requires
        round_ok(top_left, diameter, style),
    ensures
        r@ == circle_pixels_of(top_left, diameter, style),
        forall|i: int| 0 <= i < r@.len() ==> #[trigger] styled_color(r@[i], style),
{
    let shape = Circle::new(EgPoint::new(top_left.x, top_left.y), diameter);
    let mut ps = PrimitiveStyle::new();
    ps.fill_color = style.fill_color.map(|c| Rgb888::new(c.red, c.green, c.blue));
    ps.stroke_color = style.stroke_color.map(|c| Rgb888::new(c.red, c.green, c.blue));
    ps.stroke_width = style.stroke_width.unwrap_or(ps.stroke_width);
    shape.into_styled(ps).pixels().map(|EgPixel(p, c)| Pixel::new(p.x, p.y, Color::new(c.r(), c.g(), c.b()))).collect()
}

/// Relies on embedded_graphics' styled Rectangle::pixels.
#[verifier::external_body]
pub(crate) fn rectangle_pixels(top_left: Point, size: Size, style: Style) -> (r: Vec<Pixel>)
    requires
        rectangle_ok(top_left, size, style),
    ensures
        r@ == rectangle_pixels_of(top_left, size, style),
        forall|i: int| 0 <= i < r@.len() ==> #[trigger] styled_color(r@[i], style),
{
    let shape = EgRectangle::new(EgPoint::new(top_left.x, top_left.y), EgSize::new(size.width, size.height));
    let mut ps = PrimitiveStyle::new();
    ps.fill_color = style.fill_color.map(|c| Rgb888::new(c.red, c.green, c.blue));
    ps.stroke_color = style.stroke_color.map(|c| Rgb888::new(c.red, c.green, c.blue));
    ps.stroke_width = style.stroke_width.unwrap_or(ps.stroke_width);
    shape.into_styled(ps).pixels().map(|EgPixel(p, c)| Pixel::new(p.x, p.y, Color::new(c.r(), c.g(), c.b()))).collect()
}

/// Relies on embedded_graphics' styled RoundedRectangle::pixels, with the corner
/// radii given one by one.
#[verifier::external_body]
pub(crate) fn rounded_pixels(top_left: Point, size: Size, corners: Corners, style: Style) -> (r: Vec<Pixel>)
    requires
        rounded_ok(top_left, size, corners, style),
    ensures
        r@ == rounded_pixels_of(top_left, size, corners, style),
        forall|i: int| 0 <= i < r@.len() ==> #[trigger] styled_color(r@[i], style),
{
    let rect = EgRectangle::new(EgPoint::new(top_left.x, top_left.y), EgSize::new(size.width, size.height));
    let shape = RoundedRectangle::new(rect, eg_radii(corners));
    let mut ps = PrimitiveStyle::new();
    ps.fill_color = style.fill_color.map(|c| Rgb888::new(c.red, c.green, c.blue));
    ps.stroke_color = style.stroke_color.map(|c| Rgb888::new(c.red, c.green, c.blue));
    ps.stroke_width = style.stroke_width.unwrap_or(ps.stroke_width);
    shape.into_styled(ps).pixels().map(|EgPixel(p, c)| Pixel::new(p.x, p.y, Color::new(c.r(), c.g(), c.b()))).collect()
}

/// Relies on embedded_graphics' CornerRadiiBuilder: each corner's radius as given.
#[verifier::external_body]
fn eg_radii(corners: Corners) -> CornerRadii {
    CornerRadiiBuilder::new()
        .top_left(EgSize::new(corners.top_left.width, corners.top_left.height))
        .top_right(EgSize::new(corners.top_right.width, corners.top_right.height))
        .bottom_right(EgSize::new(corners.bottom_right.width, corners.bottom_right.height))
        .bottom_left(EgSize::new(corners.bottom_left.width, corners.bottom_left.height))
        .build()
}

/// Relies on embedded_graphics' styled Arc::pixels: stroke-colored points of the
/// circle grown by the outer half of the stroke.
#[verifier::external_body]
pub(crate) fn arc_pixels(top_left: Point, diameter: u32, start: Angle, sweep: Angle, style: Style) -> (r: Vec<Pixel>)
    requires
        round_ok(top_left, diameter, style),
    ensures
        forall|i: int|
            0 <= i < r@.len() ==> #[trigger] styled_color(r@[i], style) && near_square(
                r@[i],
                top_left,
                diameter,
                stroke_of(style),
            ),
{
    let shape = Arc::new(EgPoint::new(top_left.x, top_left.y), diameter, start, sweep);
    let mut ps = PrimitiveStyle::new();
    ps.fill_color = style.fill_color.map(|c| Rgb888::new(c.red, c.green, c.blue));
    ps.stroke_color = style.stroke_color.map(|c| Rgb888::new(c.red, c.green, c.blue));
    ps.stroke_width = style.stroke_width.unwrap_or(ps.stroke_width);
    shape.into_styled(ps).pixels().map(|EgPixel(p, c)| Pixel::new(p.x, p.y, Color::new(c.r(), c.g(), c.b()))).collect()
}

/// Relies on embedded_graphics' styled Sector::pixels: fill- or stroke-colored points
/// of the circle grown by the outer half of the stroke.
#[verifier::external_body]
pub(crate) fn sector_pixels(top_left: Point, diameter: u32, start: Angle, sweep: Angle, style: Style) -> (r: Vec<Pixel>)
    requires
        round_ok(top_left, diameter, style),
    ensures
        forall|i: int|
            0 <= i < r@.len() ==> #[trigger] styled_color(r@[i], style) && near_square(
                r@[i],
                top_left,
                diameter,
                stroke_of(style),
            ),
{
    let shape = Sector::new(EgPoint::new(top_left.x, top_left.y), diameter, start, sweep);
    let mut ps = PrimitiveStyle::new();
    ps.fill_color = style.fill_color.map(|c| Rgb888::new(c.red, c.green, c.blue));
    ps.stroke_color = style.stroke_color.map(|c| Rgb888::new(c.red, c.green, c.blue));
    ps.stroke_width = style.stroke_width.unwrap_or(ps.stroke_width);
    shape.into_styled(ps).pixels().map(|EgPixel(p, c)| Pixel::new(p.x, p.y, Color::new(c.r(), c.g(), c.b()))).collect()
}

/// Relies on embedded_graphics' styled Ellipse::pixels: fill- or stroke-colored points
/// of the ellipse's rectangle grown by the outer half of the stroke.
#[verifier::external_body]
pub(crate) fn ellipse_pixels(top_left: Point, size: Size, style: Style) -> (r: Vec<Pixel>)
    requires
        ellipse_ok(top_left, size, style),
    ensures
        r@ == ellipse_pixels_of(top_left, size, style),
        forall|i: int|
            0 <= i < r@.len() ==> #[trigger] styled_color(r@[i], style) && near_rect(
                r@[i],
                top_left,
                size,
                stroke_of(style),
            ),
{
    let shape = Ellipse::new(EgPoint::new(top_left.x, top_left.y), EgSize::new(size.width, size.height));
    let mut ps = PrimitiveStyle::new();
    ps.fill_color = style.fill_color.map(|c| Rgb888::new(c.red, c.green, c.blue));
    ps.stroke_color = style.stroke_color.map(|c| Rgb888::new(c.red, c.green, c.blue));
    ps.stroke_width = style.stroke_width.unwrap_or(ps.stroke_width);
    shape.into_styled(ps).pixels().map(|EgPixel(p, c)| Pixel::new(p.x, p.y, Color::new(c.r(), c.g(), c.b()))).collect()
}

/// Relies on embedded_graphics' styled Triangle::pixels.
#[verifier::external_body]
pub(crate) fn triangle_pixels(a: Point, b: Point, c: Point, style: Style) -> (r: Vec<Pixel>)
    requires
        vertices_ok(seq![a, b, c], true, style),
    ensures
        r@ == triangle_pixels_of(a, b, c, style),
        forall|i: int| 0 <= i < r@.len() ==> #[trigger] styled_color(r@[i], style),
{
    let shape = Triangle::new(EgPoint::new(a.x, a.y), EgPoint::new(b.x, b.y), EgPoint::new(c.x, c.y));
    let mut ps = PrimitiveStyle::new();
    ps.fill_color = style.fill_color.map(|c| Rgb888::new(c.red, c.green, c.blue));
    ps.stroke_color = style.stroke_color.map(|c| Rgb888::new(c.red, c.green, c.blue));
    ps.stroke_width = style.stroke_width.unwrap_or(ps.stroke_width);
    shape.into_styled(ps).pixels().map(|EgPixel(p, c)| Pixel::new(p.x, p.y, Color::new(c.r(), c.g(), c.b()))).collect()
}

/// Relies on embedded_graphics' styled Polyline::pixels.
#[verifier::external_body]
pub(crate) fn polyline_pixels(points: &Vec<Point>, style: Style) -> (r: Vec<Pixel>)
    requires
        vertices_ok(points@, false, style),
    ensures
        r@ == polyline_pixels_of(points@, style),
        forall|i: int| 0 <= i < r@.len() ==> #[trigger] styled_color(r@[i], style),
{
    let v: Vec<EgPoint> = points.iter().map(|p| EgPoint::new(p.x, p.y)).collect();
    let shape = Polyline::new(&v);
    let mut ps = PrimitiveStyle::new();
    ps.fill_color = style.fill_color.map(|c| Rgb888::new(c.red, c.green, c.blue));
    ps.stroke_color = style.stroke_color.map(|c| Rgb888::new(c.red, c.green, c.blue));
    ps.stroke_width = style.stroke_width.unwrap_or(ps.stroke_width);
    shape.into_styled(ps).pixels().map(|EgPixel(p, c)| Pixel::new(p.x, p.y, Color::new(c.r(), c.g(), c.b()))).collect()
}

} // verus!
