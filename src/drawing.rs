use vstd::prelude::*;

use crate::bounds::{is_inside, is_representable, overlaps, representable};
use crate::objects::{Alignment, Baseline, Color, Corners, Pixel, Point, Rectangle, Size, Style, TextStyle};
use crate::raster::{
    arc_box, arc_pixels, max3, min3, axes_ok, circle_box, circle_pixels, circle_pixels_of, ellipse_box,
    ellipse_ok, ellipse_pixels, ellipse_pixels_of, join_point_ok, line_box, line_ok, line_pixels,
    line_pixels_of, max_x, max_y, min_x, min_y, near_square, point_ok, polyline_box, polyline_box_of, polyline_pixels,
    polyline_pixels_of, radius_ok, rectangle_ok, rectangle_pixels, rectangle_pixels_of, round_ok,
    rounded_ok, rounded_pixels, rounded_pixels_of, sector_box, sector_pixels, segment_ok, span_box,
    square_at, stroke_of, styled_color, text_box, text_box_of, text_ok, near_rect, polyline_span_ok, span_ok, triangle_span_ok, triangle_box,
    triangle_box_of, triangle_pixels, triangle_pixels_of, vertices_ok, Font, JOIN_LIMIT,
    PLANE_LIMIT, SEGMENT_LIMIT,
};
use crate::surface::{
    channels, fits_plane, in_canvas, lemma_offset_bounds, lemma_paint_in_color, paint, Surface, SurfaceError,
};
use embedded_graphics::geometry::Angle;
use vstd::string::StrSliceExecFns;

verus! {

/// The face that a requested point size selects, by range.
pub open spec fn font_for(size: u8) -> Font {
    if size <= 7 {
        Font::Point7
    } else if size <= 9 {
        Font::Point9
    } else if size == 10 {
        Font::Point10
    } else if size <= 12 {
        Font::Point12
    } else if size <= 14 {
        Font::Point14
    } else if size <= 18 {
        Font::Point18
    } else {
        Font::Point24
    }
}

/// The alignment a text is set with: the style's, else left.
pub open spec fn alignment_of(style: Option<TextStyle>) -> Alignment {
    match style {
        Some(TextStyle { alignment: Some(a), .. }) => a,
        _ => Alignment::Left,
    }
}

/// The baseline a text is set on: the style's, else alphabetic.
pub open spec fn baseline_of(style: Option<TextStyle>) -> Baseline {
    match style {
        Some(TextStyle { baseline: Some(b), .. }) => b,
        _ => Baseline::Alphabetic,
    }
}

/// The pixels a rectangle call paints: rounded alike at every corner with a radius,
/// square without one.
pub open spec fn rectangle_pixels_for(
    top_left: Point,
    size: Size,
    style: Style,
    radius: Option<u32>,
) -> Seq<Pixel> {
    match radius {
        Some(k) => rounded_pixels_of(top_left, size, Corners::uniform_spec(k), style),
        None => rectangle_pixels_of(top_left, size, style),
    }
}

/// The face for a requested point size.
pub fn font_for_size(size: u8) -> (r: Font)
    ensures
        r == font_for(size),
{
    if size <= 7 {
        Font::Point7
    } else if size <= 9 {
        Font::Point9
    } else if size == 10 {
        Font::Point10
    } else if size <= 12 {
        Font::Point12
    } else if size <= 14 {
        Font::Point14
    } else if size <= 18 {
        Font::Point18
    } else {
        Font::Point24
    }
}

fn stroke_width_of(style: &Style) -> (r: u32)
    ensures
        r == stroke_of(*style),
{
    match style.stroke_width {
        Some(w) => w,
        None => 0,
    }
}

/// Whether a point lies within the rasterizers' coordinate range.
pub fn point_in_range(p: &Point) -> (r: bool)
    ensures
        r == point_ok(*p),
{
    -PLANE_LIMIT <= p.x && p.x <= PLANE_LIMIT && -PLANE_LIMIT <= p.y && p.y <= PLANE_LIMIT
}

/// Whether the line rasterizer handles this line without overflow.
pub fn line_in_range(start: &Point, end: &Point, style: &Style) -> (r: bool)
    ensures
        r == line_ok(*start, *end, *style),
{
    if !point_in_range(start) || !point_in_range(end) {
        return false;
    }
    let t = stroke_width_of(style) as i64 + 1;
    let dx = end.x as i64 - start.x as i64;
    let dy = end.y as i64 - start.y as i64;
    assert(0 <= dx * dx <= 0x400_0000_0000_0000 && 0 <= dy * dy <= 0x400_0000_0000_0000)
        by (nonlinear_arith)
        requires
            -0x2000_0000 <= dx <= 0x2000_0000,
            -0x2000_0000 <= dy <= 0x2000_0000,
    ;
    let n = dx * dx + dy * dy;
    let d: i64 = if n == 0 { 1 } else { n };
    if t > 23171 || d > 0x7fff_ffff {
        proof {
            let q = 4 * t * t;
            if t > 23171 {
                assert(q * d > 0x7fff_ffff) by (nonlinear_arith)
                    requires
                        t > 23171,
                        d >= 1,
                        q == 4 * t * t,
                ;
            } else {
                assert(q * d > 0x7fff_ffff) by (nonlinear_arith)
                    requires
                        t >= 1,
                        d > 0x7fff_ffff,
                        q == 4 * t * t,
                ;
            }
        }
        return false;
    }
    assert(0 <= 4 * t * t <= 0x8002_0000) by (nonlinear_arith)
        requires
            1 <= t <= 23171,
    ;
    let q = 4 * t * t;
    assert(q * d <= 0x8002_0000 * 0x7fff_ffff) by (nonlinear_arith)
        requires
            0 <= q <= 0x8002_0000,
            0 <= d <= 0x7fff_ffff,
    ;
    q * d <= 0x7fff_ffff
}

/// Whether the circle, arc and sector rasterizers handle this shape.
pub fn round_in_range(top_left: &Point, diameter: u32, style: &Style) -> (r: bool)
    ensures
        r == round_ok(*top_left, diameter, *style),
{
    point_in_range(top_left) && diameter as u64 + 2 * stroke_width_of(style) as u64 <= 32767
}

/// Whether the rectangle rasterizer handles this rectangle.
pub fn rectangle_in_range(top_left: &Point, size: &Size, style: &Style) -> (r: bool)
    ensures
        r == rectangle_ok(*top_left, *size, *style),
{
    point_in_range(top_left) && size.width <= PLANE_LIMIT as u32 && size.height
        <= PLANE_LIMIT as u32 && stroke_width_of(style) <= PLANE_LIMIT as u32
}

fn axes_in_range(width: u64, height: u64) -> (r: bool)
    requires
        width <= 0x4_0000_0000,
        height <= 0x4_0000_0000,
    ensures
        r == axes_ok(width as int, height as int),
{
    if width > 46340 || height > 46340 {
        return false;
    }
    assert(width * height <= 46340 * 46340) by (nonlinear_arith)
        requires
            width <= 46340,
            height <= 46340,
    ;
    width == height || width * height <= 46340
}

fn radius_in_range(radius: &Size, style: &Style) -> (r: bool)
    ensures
        r == radius_ok(*radius, *style),
{
    let s = stroke_width_of(style) as u64;
    axes_in_range(2 * (radius.width as u64 + s), 2 * (radius.height as u64 + s))
}

/// Whether the rounded-rectangle rasterizer handles this shape.
pub fn rounded_in_range(top_left: &Point, size: &Size, corners: &Corners, style: &Style) -> (r:
    bool)
    ensures
        r == rounded_ok(*top_left, *size, *corners, *style),
{
    rectangle_in_range(top_left, size, style) && radius_in_range(&corners.top_left, style)
        && radius_in_range(&corners.top_right, style) && radius_in_range(
        &corners.bottom_right,
        style,
    ) && radius_in_range(&corners.bottom_left, style)
}

/// Whether the ellipse rasterizer handles this ellipse.
pub fn ellipse_in_range(top_left: &Point, size: &Size, style: &Style) -> (r: bool)
    ensures
        r == ellipse_ok(*top_left, *size, *style),
{
    let s = stroke_width_of(style) as u64;
    point_in_range(top_left) && axes_in_range(size.width as u64 + 2 * s, size.height as u64 + 2 * s)
}

fn join_point_in_range(p: &Point) -> (r: bool)
    ensures
        r == join_point_ok(*p),
{
    -JOIN_LIMIT <= p.x && p.x <= JOIN_LIMIT && -JOIN_LIMIT <= p.y && p.y <= JOIN_LIMIT
}

fn segment_in_range(a: &Point, b: &Point) -> (r: bool)
    requires
        join_point_ok(*a),
        join_point_ok(*b),
    ensures
        r == segment_ok(*a, *b),
{
    -SEGMENT_LIMIT <= b.x - a.x && b.x - a.x <= SEGMENT_LIMIT && -SEGMENT_LIMIT <= b.y - a.y && b.y
        - a.y <= SEGMENT_LIMIT
}

/// Whether the triangle (closed) or polyline (open) rasterizer handles these vertices.
pub fn vertices_in_range(points: &Vec<Point>, closed: bool, style: &Style) -> (r: bool)
    ensures
        r == vertices_ok(points@, closed, *style),
{
    let thin = !closed && stroke_width_of(style) <= 1;
    if !thin && stroke_width_of(style) > 106 {
        return false;
    }
    let mut i: usize = 0;
    while i < points.len()
        invariant
            i <= points@.len(),
            thin == (!closed && stroke_of(*style) <= 1),
            thin ==> forall|k: int| 0 <= k < i ==> #[trigger] point_ok(points@[k]),
            !thin ==> forall|k: int| 0 <= k < i ==> #[trigger] join_point_ok(points@[k]),
            !thin ==> forall|k: int| 0 < k < i ==> #[trigger] segment_ok(points@[k - 1], points@[k]),
        decreases points@.len() - i,
    {
        let p = points[i];
        if thin {
            if !point_in_range(&p) {
                return false;
            }
        } else {
            if !join_point_in_range(&p) {
                return false;
            }
            if i > 0 && !segment_in_range(&points[i - 1], &p) {
                assert(!segment_ok(points@[i - 1], points@[i as int]));
                return false;
            }
        }
        i = i + 1;
    }
    if !thin && closed && points.len() > 0 {
        let last = points.len() - 1;
        assert(join_point_ok(points@[last as int]));
        assert(join_point_ok(points@[0]));
        if !segment_in_range(&points[last], &points[0]) {
            return false;
        }
    }
    true
}

proof fn lemma_extremes_in_plane(points: Seq<Point>)
    requires
        points.len() >= 1,
        forall|i: int| 0 <= i < points.len() ==> #[trigger] point_ok(points[i]),
    ensures
        -PLANE_LIMIT <= min_x(points) <= max_x(points) <= PLANE_LIMIT,
        -PLANE_LIMIT <= min_y(points) <= max_y(points) <= PLANE_LIMIT,
    decreases points.len(),
{
    assert(point_ok(points[0]));
    assert(point_ok(points.last()));
    if points.len() > 1 {
        let rest = points.drop_last();
        assert forall|i: int| 0 <= i < rest.len() implies #[trigger] point_ok(rest[i]) by {
            assert(point_ok(points[i]));
        }
        lemma_extremes_in_plane(rest);
    }
}

/// The box of a polyline inside the coordinate range fits the signed plane.
proof fn lemma_polyline_box_representable(points: Seq<Point>)
    requires
        forall|i: int| 0 <= i < points.len() ==> #[trigger] point_ok(points[i]),
    ensures
        representable(polyline_box_of(points)),
{
    if points.len() >= 1 {
        assert(point_ok(points[0]));
    }
    if points.len() > 1 {
        lemma_extremes_in_plane(points);
    }
}

fn span_in_range(a: &Point, b: &Point) -> (r: bool)
    ensures
        r == span_ok(*a, *b),
{
    let dx = a.x as i64 - b.x as i64;
    let dy = a.y as i64 - b.y as i64;
    i32::MIN as i64 <= dx && dx <= i32::MAX as i64 && i32::MIN as i64 <= dy && dy <= i32::MAX as i64
}

fn min3_of(a: i32, b: i32, c: i32) -> (r: i32)
    ensures
        r == min3(a as int, b as int, c as int),
{
    if a <= b && a <= c {
        a
    } else if b <= c {
        b
    } else {
        c
    }
}

fn max3_of(a: i32, b: i32, c: i32) -> (r: i32)
    ensures
        r == max3(a as int, b as int, c as int),
{
    if a >= b && a >= c {
        a
    } else if b >= c {
        b
    } else {
        c
    }
}

fn triangle_span_in_range(a: &Point, b: &Point, c: &Point) -> (r: bool)
    ensures
        r == triangle_span_ok(*a, *b, *c),
{
    let (x0, x1) = (min3_of(a.x, b.x, c.x) as i64, max3_of(a.x, b.x, c.x) as i64);
    let (y0, y1) = (min3_of(a.y, b.y, c.y) as i64, max3_of(a.y, b.y, c.y) as i64);
    x1 - x0 <= 0x8000_0000 && y1 - y0 <= 0x8000_0000
}

/// The least and greatest coordinates of a non-empty point sequence.
fn extremes(points: &Vec<Point>) -> (r: (i32, i32, i32, i32))
    requires
        points@.len() >= 1,
    ensures
        r.0 == min_x(points@),
        r.1 == min_y(points@),
        r.2 == max_x(points@),
        r.3 == max_y(points@),
{
    let mut lo_x = points[0].x;
    let mut lo_y = points[0].y;
    let mut hi_x = points[0].x;
    let mut hi_y = points[0].y;
    let mut i: usize = 1;
    proof {
        let first = points@.subrange(0, 1);
        assert(first.len() == 1 && first[0] == points@[0]);
    }
    while i < points.len()
        invariant
            1 <= i <= points@.len(),
            lo_x == min_x(points@.subrange(0, i as int)),
            lo_y == min_y(points@.subrange(0, i as int)),
            hi_x == max_x(points@.subrange(0, i as int)),
            hi_y == max_y(points@.subrange(0, i as int)),
        decreases points@.len() - i,
    {
        let p = points[i];
        proof {
            let next = points@.subrange(0, i + 1);
            assert(next.drop_last() =~= points@.subrange(0, i as int));
            assert(next.last() == p);
        }
        if p.x < lo_x {
            lo_x = p.x;
        }
        if p.y < lo_y {
            lo_y = p.y;
        }
        if p.x > hi_x {
            hi_x = p.x;
        }
        if p.y > hi_y {
            hi_y = p.y;
        }
        i = i + 1;
    }
    proof {
        assert(points@.subrange(0, points@.len() as int) =~= points@);
    }
    (lo_x, lo_y, hi_x, hi_y)
}

fn polyline_span_in_range(points: &Vec<Point>) -> (r: bool)
    ensures
        r == polyline_span_ok(points@),
{
    if points.len() < 2 {
        return true;
    }
    let (lo_x, lo_y, hi_x, hi_y) = extremes(points);
    hi_x as i64 - lo_x as i64 <= 0x8000_0000 && hi_y as i64 - lo_y as i64 <= 0x8000_0000
}

/// Vertices of a joined outline lie in the coordinate range, as the box needs.
proof fn lemma_vertices_in_plane(points: Seq<Point>, closed: bool, style: Style)
    requires
        vertices_ok(points, closed, style),
    ensures
        forall|i: int| 0 <= i < points.len() ==> #[trigger] point_ok(points[i]),
{
    if closed || stroke_of(style) > 1 {
        assert forall|i: int| 0 <= i < points.len() implies #[trigger] point_ok(points[i]) by {
            assert(join_point_ok(points[i]));
        }
    }
}

/// A drawing session over a canvas: each call gates one shape by its bounding box
/// and, when the box meets the canvas, writes the shape's pixels.
pub struct Drawing {
    surface: Surface,
}

impl Drawing {
    /// The canvas bytes.
    pub closed spec fn bytes(&self) -> Seq<u8> {
        self.surface.bytes()
    }

    /// The canvas width in pixels.
    pub closed spec fn columns(&self) -> nat {
        self.surface.columns()
    }

    /// The canvas height in pixels.
    pub closed spec fn rows(&self) -> nat {
        self.surface.rows()
    }

    pub closed spec fn wf(&self) -> bool {
        self.surface.wf()
    }

    /// The number of bytes the canvas's pixels take.
    pub open spec fn canvas_len(&self) -> nat {
        self.columns() * self.rows() * 4
    }

    /// The canvas as a rectangle at the origin.
    pub open spec fn canvas(&self) -> Rectangle {
        Rectangle {
            top_left: Point { x: 0, y: 0 },
            size: Size { width: self.columns() as u32, height: self.rows() as u32 },
        }
    }

    /// Whether a shape with this bounding box is drawn: the box fits the signed plane
    /// and shares a pixel with the canvas.
    pub open spec fn accepts(&self, bbox: Rectangle) -> bool {
        representable(bbox) && overlaps(self.canvas(), bbox)
    }

    /// What a drawing call reports: the full, unclipped box of a shape that shares a
    /// pixel with the canvas, else nothing.
    pub open spec fn outcome(&self, bbox: Rectangle) -> Option<Rectangle> {
        if overlaps(self.canvas(), bbox) {
            Some(bbox)
        } else {
            None
        }
    }

    /// What a text call reports: as `outcome`, for a box whose far edges fit the
    /// signed plane.
    pub open spec fn text_outcome(&self, bbox: Rectangle) -> Option<Rectangle> {
        if self.accepts(bbox) {
            Some(bbox)
        } else {
            None
        }
    }

    /// The state after a drawing call that reported `r` and would paint `pixels`.
    pub open spec fn drawn(&self, next: &Drawing, r: Option<Rectangle>, pixels: Seq<Pixel>) -> bool {
        &&& next.wf()
        &&& next.columns() == self.columns()
        &&& next.rows() == self.rows()
        &&& r is None ==> next.bytes() == self.bytes()
        &&& r is Some ==> next.bytes() == paint(self.bytes(), self.columns(), self.rows(), pixels)
    }

    /// A session over `buffer` for a `width` by `height` canvas: refused when the
    /// buffer holds fewer than `width * height * 4` bytes, or when a canvas with pixels
    /// has a side beyond the signed plane.
    pub fn new(buffer: Vec<u8>, width: u32, height: u32) -> (r: Result<Drawing, SurfaceError>)
        ensures
            r is Ok <==> (fits_plane(width as nat, height as nat) && width * height * 4
                <= buffer@.len()),
            !fits_plane(width as nat, height as nat) ==> r == Err::<Drawing, SurfaceError>(
                SurfaceError::TooLarge,
            ),
            fits_plane(width as nat, height as nat) && buffer@.len() < width * height * 4 ==> r
                == Err::<Drawing, SurfaceError>(SurfaceError::Undersized),
            r matches Ok(d) ==> d.wf() && d.bytes() == buffer@ && d.columns() == width
                && d.rows() == height,
    {
        match Surface::new(buffer, width, height) {
            Ok(surface) => Ok(Drawing { surface }),
            Err(e) => Err(e),
        }
    }

    /// The surface the session draws on.
    pub fn surface(&self) -> (r: &Surface)
        ensures
            r.bytes() == self.bytes(),
            r.columns() == self.columns(),
            r.rows() == self.rows(),
    {
        &self.surface
    }

    /// The four channels of pixel `(x, y)`, or `None` off the canvas.
    pub fn pixel(&self, x: i32, y: i32) -> (r: Option<(u8, u8, u8, u8)>)
        requires
            self.wf(),
        ensures
            in_canvas(self.columns(), self.rows(), x as int, y as int) ==> r == Some(
                channels(self.bytes(), self.columns(), x as int, y as int),
            ),
            !in_canvas(self.columns(), self.rows(), x as int, y as int) ==> r is None,
    {
        self.surface.pixel(x, y)
    }

    /// Whether `bbox` shares a pixel with the canvas.
    pub fn meets_canvas(&self, bbox: &Rectangle) -> (r: bool)
        requires
            self.wf(),
        ensures
            r == overlaps(self.canvas(), *bbox),
    {
        let w = self.surface.width() as i64;
        let h = self.surface.height() as i64;
        let (x, y) = (bbox.top_left.x as i64, bbox.top_left.y as i64);
        let (bw, bh) = (bbox.size.width as i64, bbox.size.height as i64);
        w != 0 && h != 0 && bw != 0 && bh != 0 && 0 < x + bw && x < w && 0 < y + bh && y < h
    }

    /// Whether a line can be handed to `line`: its box can be computed, and a box
    /// that meets the canvas belongs to a line the rasterizer handles.
    pub fn admits_line(&self, start: &Point, end: &Point, style: &Style) -> (r: bool)
        requires
            self.wf(),
        ensures
            r == (span_ok(*start, *end) && (overlaps(
                self.canvas(),
                span_box(start.x as int, start.y as int, end.x as int, end.y as int),
            ) ==> line_ok(*start, *end, *style))),
    {
        if !span_in_range(start, end) {
            return false;
        }
        let b = line_box(*start, *end);
        !self.meets_canvas(&b) || line_in_range(start, end, style)
    }

    /// Whether a circle, arc or sector can be handed to its call.
    pub fn admits_round(&self, top_left: &Point, diameter: u32, style: &Style) -> (r: bool)
        requires
            self.wf(),
        ensures
            r == (overlaps(self.canvas(), square_at(*top_left, diameter)) ==> round_ok(
                *top_left,
                diameter,
                *style,
            )),
    {
        let b = circle_box(*top_left, diameter);
        !self.meets_canvas(&b) || round_in_range(top_left, diameter, style)
    }

    /// Whether a rectangle, with or without a radius, can be handed to `rectangle`.
    pub fn admits_rectangle(&self, top_left: &Point, size: &Size, style: &Style, radius: Option<
        u32,
    >) -> (r: bool)
        requires
            self.wf(),
        ensures
            r == (overlaps(self.canvas(), Rectangle { top_left: *top_left, size: *size })
                ==> match radius {
                Some(k) => rounded_ok(*top_left, *size, Corners::uniform_spec(k), *style),
                None => rectangle_ok(*top_left, *size, *style),
            }),
    {
        let b = Rectangle::new(*top_left, *size);
        if !self.meets_canvas(&b) {
            return true;
        }
        match radius {
            Some(k) => rounded_in_range(top_left, size, &Corners::uniform(k), style),
            None => rectangle_in_range(top_left, size, style),
        }
    }

    /// Whether a rounded rectangle can be handed to `rounded_rectangle`.
    pub fn admits_rounded(&self, top_left: &Point, size: &Size, corners: &Corners, style: &Style) -> (r:
        bool)
        requires
            self.wf(),
        ensures
            r == (overlaps(self.canvas(), Rectangle { top_left: *top_left, size: *size })
                ==> rounded_ok(*top_left, *size, *corners, *style)),
    {
        let b = Rectangle::new(*top_left, *size);
        !self.meets_canvas(&b) || rounded_in_range(top_left, size, corners, style)
    }

    /// Whether an ellipse can be handed to `ellipse`.
    pub fn admits_ellipse(&self, top_left: &Point, size: &Size, style: &Style) -> (r: bool)
        requires
            self.wf(),
        ensures
            r == (overlaps(self.canvas(), Rectangle { top_left: *top_left, size: *size })
                ==> ellipse_ok(*top_left, *size, *style)),
    {
        let b = ellipse_box(*top_left, *size);
        !self.meets_canvas(&b) || ellipse_in_range(top_left, size, style)
    }

    /// Whether a triangle can be handed to `triangle`.
    pub fn admits_triangle(&self, a: &Point, b: &Point, c: &Point, style: &Style) -> (r: bool)
        requires
            self.wf(),
        ensures
            r == (triangle_span_ok(*a, *b, *c) && (overlaps(
                self.canvas(),
                triangle_box_of(*a, *b, *c),
            ) ==> vertices_ok(seq![*a, *b, *c], true, *style))),
    {
        if !triangle_span_in_range(a, b, c) {
            return false;
        }
        let bbox = triangle_box(*a, *b, *c);
        let vertices = vec![*a, *b, *c];
        assert(vertices@ =~= seq![*a, *b, *c]);
        !self.meets_canvas(&bbox) || vertices_in_range(&vertices, true, style)
    }

    /// Whether a polyline can be handed to `polyline`.
    pub fn admits_polyline(&self, points: &Vec<Point>, style: &Style) -> (r: bool)
        requires
            self.wf(),
        ensures
            r == (polyline_span_ok(points@) && (overlaps(self.canvas(), polyline_box_of(points@))
                ==> vertices_ok(points@, false, *style))),
    {
        if !polyline_span_in_range(points) {
            return false;
        }
        let bbox = polyline_box(points);
        !self.meets_canvas(&bbox) || vertices_in_range(points, false, style)
    }

    /// The canvas as a rectangle.
    fn canvas_box(&self) -> (r: Rectangle)
        requires
            self.wf(),
        ensures
            r == self.canvas(),
            r.size.width != 0 && r.size.height != 0 ==> representable(r),
    {
        let (w, h) = (self.surface.width(), self.surface.height());
        if w != 0 && h != 0 {
            assert(w * h != 0) by (nonlinear_arith)
                requires
                    w != 0,
                    h != 0,
            ;
        }
        Rectangle::new(Point::new(0, 0), Size::new(w, h))
    }

    /// Whether a shape with this bounding box is drawn.
    fn gate(&self, bbox: &Rectangle) -> (r: bool)
        requires
            self.wf(),
        ensures
            r == self.accepts(*bbox),
    {
        let canvas = self.canvas_box();
        if canvas.size.width == 0 || canvas.size.height == 0 {
            return false;
        }
        is_representable(bbox) && is_inside(&canvas, bbox)
    }

    /// Zeroes the canvas's bytes and keeps any bytes past them; it is never gated.
    pub fn clear(&mut self)
        requires
            old(self).wf(),
        ensures
            final(self).wf(),
            final(self).columns() == old(self).columns(),
            final(self).rows() == old(self).rows(),
            final(self).bytes() == Seq::new(old(self).canvas_len(), |i: int| 0u8) + old(
                self,
            ).bytes().subrange(old(self).canvas_len() as int, old(self).bytes().len() as int),
            forall|x: int, y: int|
                in_canvas(final(self).columns(), final(self).rows(), x, y) ==> #[trigger] channels(
                    final(self).bytes(),
                    final(self).columns(),
                    x,
                    y,
                ) == (0u8, 0u8, 0u8, 0u8),
    {
        self.surface.clear();
        proof {
            let w = self.columns();
            let h = self.rows();
            assert forall|x: int, y: int| in_canvas(w, h, x, y) implies #[trigger] channels(
                self.bytes(),
                w,
                x,
                y,
            ) == (0u8, 0u8, 0u8, 0u8) by {
                lemma_offset_bounds(w, h, x, y);
            }
        }
    }

    /// Draws a line between two points. The line must lie within the range the
    /// line rasterizer computes in without overflow.
    pub fn line(&mut self, start_point: Point, end_point: Point, style: Style) -> (r: Option<
        Rectangle,
    >)
        requires
            old(self).wf(),
            span_ok(start_point, end_point),
            overlaps(
                old(self).canvas(),
                span_box(
                    start_point.x as int,
                    start_point.y as int,
                    end_point.x as int,
                    end_point.y as int,
                ),
            ) ==> line_ok(start_point, end_point, style),
        ensures
            r == old(self).outcome(
                span_box(
                    start_point.x as int,
                    start_point.y as int,
                    end_point.x as int,
                    end_point.y as int,
                ),
            ),
            old(self).drawn(final(self), r, line_pixels_of(start_point, end_point, style)),
            r is Some ==> forall|i: int|
                0 <= i < line_pixels_of(start_point, end_point, style).len()
                    ==> #[trigger] styled_color(line_pixels_of(start_point, end_point, style)[i], style),
    {
        let bbox = line_box(start_point, end_point);
        assert(overlaps(self.canvas(), bbox) ==> representable(bbox));
        if !self.gate(&bbox) {
            return None;
        }
        let pixels = line_pixels(start_point, end_point, style);
        self.surface.plot(&pixels);
        Some(bbox)
    }

    /// Draws a circle of the given diameter from its top-left corner.
    pub fn circle(&mut self, top_left_point: Point, diameter: u32, style: Style) -> (r: Option<
        Rectangle,
    >)
        requires
            old(self).wf(),
            overlaps(old(self).canvas(), square_at(top_left_point, diameter)) ==> round_ok(
                top_left_point,
                diameter,
                style,
            ),
        ensures
            r == old(self).outcome(square_at(top_left_point, diameter)),
            old(self).drawn(final(self), r, circle_pixels_of(top_left_point, diameter, style)),
            r is Some ==> forall|i: int|
                0 <= i < circle_pixels_of(top_left_point, diameter, style).len()
                    ==> #[trigger] styled_color(
                    circle_pixels_of(top_left_point, diameter, style)[i],
                    style,
                ),
    {
        let bbox = circle_box(top_left_point, diameter);
        assert(overlaps(self.canvas(), bbox) ==> representable(bbox));
        if !self.gate(&bbox) {
            return None;
        }
        let pixels = circle_pixels(top_left_point, diameter, style);
        self.surface.plot(&pixels);
        Some(bbox)
    }

    /// Draws a rectangle; with a radius, its four corners are rounded alike. The radius
    /// changes which pixels are written, never whether the shape is drawn.
    pub fn rectangle(&mut self, top_left_point: Point, size: Size, style: Style, radius: Option<
        u32,
    >) -> (r: Option<Rectangle>)
        requires
            old(self).wf(),
            overlaps(old(self).canvas(), Rectangle { top_left: top_left_point, size }) ==> match radius {
                Some(k) => rounded_ok(top_left_point, size, Corners::uniform_spec(k), style),
                None => rectangle_ok(top_left_point, size, style),
            },
        ensures
            r == old(self).outcome(Rectangle { top_left: top_left_point, size }),
            old(self).drawn(
                final(self),
                r,
                rectangle_pixels_for(top_left_point, size, style, radius),
            ),
            r is Some ==> forall|i: int|
                0 <= i < rectangle_pixels_for(top_left_point, size, style, radius).len()
                    ==> #[trigger] styled_color(
                    rectangle_pixels_for(top_left_point, size, style, radius)[i],
                    style,
                ),
            style.fill_color is None && style.stroke_color is None ==> final(self).bytes() == old(
                self,
            ).bytes(),
    {
        match radius {
            Some(k) => self.rounded_rectangle(top_left_point, size, style, Corners::uniform(k)),
            None => {
                let bbox = Rectangle::new(top_left_point, size);
                assert(overlaps(self.canvas(), bbox) ==> representable(bbox));
                if !self.gate(&bbox) {
                    return None;
                }
                let pixels = rectangle_pixels(top_left_point, size, style);
                proof {
                    if style.fill_color is None && style.stroke_color is None && pixels@.len() > 0 {
                        assert(styled_color(pixels@[0], style));
                    }
                }
                self.surface.plot(&pixels);
                Some(bbox)
            },
        }
    }

    /// Draws a rectangle whose corners each have their own radius.
    pub fn rounded_rectangle(
        &mut self,
        top_left_point: Point,
        size: Size,
        style: Style,
        corners: Corners,
    ) -> (r: Option<Rectangle>)
        requires
            old(self).wf(),
            overlaps(old(self).canvas(), Rectangle { top_left: top_left_point, size })
                ==> rounded_ok(top_left_point, size, corners, style),
        ensures
            r == old(self).outcome(Rectangle { top_left: top_left_point, size }),
            old(self).drawn(
                final(self),
                r,
                rounded_pixels_of(top_left_point, size, corners, style),
            ),
            r is Some ==> forall|i: int|
                0 <= i < rounded_pixels_of(top_left_point, size, corners, style).len()
                    ==> #[trigger] styled_color(
                    rounded_pixels_of(top_left_point, size, corners, style)[i],
                    style,
                ),
            style.fill_color is None && style.stroke_color is None ==> final(self).bytes() == old(
                self,
            ).bytes(),
    {
        let bbox = Rectangle::new(top_left_point, size);
        assert(overlaps(self.canvas(), bbox) ==> representable(bbox));
        if !self.gate(&bbox) {
            return None;
        }
        let pixels = rounded_pixels(top_left_point, size, corners, style);
        proof {
            if style.fill_color is None && style.stroke_color is None && pixels@.len() > 0 {
                assert(styled_color(pixels@[0], style));
            }
        }
        self.surface.plot(&pixels);
        Some(bbox)
    }

    /// Draws the arc of a circle from `angle_start`, sweeping `angle_sweep`. What is
    /// written is the stroke color, near the circle's square.
    pub fn arc(
        &mut self,
        top_left_point: Point,
        diameter: u32,
        angle_start: Angle,
        angle_sweep: Angle,
        style: Style,
    ) -> (r: Option<Rectangle>)
        requires
            old(self).wf(),
            overlaps(old(self).canvas(), square_at(top_left_point, diameter)) ==> round_ok(
                top_left_point,
                diameter,
                style,
            ),
        ensures
            r == old(self).outcome(square_at(top_left_point, diameter)),
            exists|pixels: Seq<Pixel>|
                old(self).drawn(final(self), r, pixels) && forall|i: int|
                    0 <= i < pixels.len() ==> #[trigger] styled_color(pixels[i], style)
                        && near_square(pixels[i], top_left_point, diameter, stroke_of(style)),
    {
        let bbox = arc_box(top_left_point, diameter, angle_start, angle_sweep);
        assert(overlaps(self.canvas(), bbox) ==> representable(bbox));
        if !self.gate(&bbox) {
            assert(old(self).drawn(self, None, Seq::empty()));
            return None;
        }
        let pixels = arc_pixels(top_left_point, diameter, angle_start, angle_sweep, style);
        self.surface.plot(&pixels);
        assert(old(self).drawn(self, Some(bbox), pixels@));
        Some(bbox)
    }

    /// Draws a pie slice of a circle from `angle_start`, sweeping `angle_sweep`. What
    /// is written carries the fill or stroke color, near the circle's square.
    pub fn sector(
        &mut self,
        top_left_point: Point,
        diameter: u32,
        angle_start: Angle,
        angle_sweep: Angle,
        style: Style,
    ) -> (r: Option<Rectangle>)
        requires
            old(self).wf(),
            overlaps(old(self).canvas(), square_at(top_left_point, diameter)) ==> round_ok(
                top_left_point,
                diameter,
                style,
            ),
        ensures
            r == old(self).outcome(square_at(top_left_point, diameter)),
            exists|pixels: Seq<Pixel>|
                old(self).drawn(final(self), r, pixels) && forall|i: int|
                    0 <= i < pixels.len() ==> #[trigger] styled_color(pixels[i], style)
                        && near_square(pixels[i], top_left_point, diameter, stroke_of(style)),
    {
        let bbox = sector_box(top_left_point, diameter, angle_start, angle_sweep);
        assert(overlaps(self.canvas(), bbox) ==> representable(bbox));
        if !self.gate(&bbox) {
            assert(old(self).drawn(self, None, Seq::empty()));
            return None;
        }
        let pixels = sector_pixels(top_left_point, diameter, angle_start, angle_sweep, style);
        self.surface.plot(&pixels);
        assert(old(self).drawn(self, Some(bbox), pixels@));
        Some(bbox)
    }

    /// Draws an ellipse inside the rectangle at `top_left_point` of `size`.
    pub fn ellipse(&mut self, top_left_point: Point, size: Size, style: Style) -> (r: Option<
        Rectangle,
    >)
        requires
            old(self).wf(),
            overlaps(old(self).canvas(), Rectangle { top_left: top_left_point, size })
                ==> ellipse_ok(top_left_point, size, style),
        ensures
            r == old(self).outcome(Rectangle { top_left: top_left_point, size }),
            old(self).drawn(final(self), r, ellipse_pixels_of(top_left_point, size, style)),
            r is Some ==> forall|i: int|
                0 <= i < ellipse_pixels_of(top_left_point, size, style).len()
                    ==> #[trigger] styled_color(ellipse_pixels_of(top_left_point, size, style)[i], style)
                    && near_rect(
                    ellipse_pixels_of(top_left_point, size, style)[i],
                    top_left_point,
                    size,
                    stroke_of(style),
                ),
    {
        let bbox = ellipse_box(top_left_point, size);
        assert(overlaps(self.canvas(), bbox) ==> representable(bbox));
        if !self.gate(&bbox) {
            return None;
        }
        let pixels = ellipse_pixels(top_left_point, size, style);
        self.surface.plot(&pixels);
        Some(bbox)
    }

    /// Draws a triangle through three vertices.
    pub fn triangle(&mut self, vertex1: Point, vertex2: Point, vertex3: Point, style: Style) -> (r:
        Option<Rectangle>)
        requires
            old(self).wf(),
            triangle_span_ok(vertex1, vertex2, vertex3),
            overlaps(old(self).canvas(), triangle_box_of(vertex1, vertex2, vertex3)) ==> vertices_ok(
                seq![vertex1, vertex2, vertex3],
                true,
                style,
            ),
        ensures
            r == old(self).outcome(triangle_box_of(vertex1, vertex2, vertex3)),
            old(self).drawn(final(self), r, triangle_pixels_of(vertex1, vertex2, vertex3, style)),
            r is Some ==> forall|i: int|
                0 <= i < triangle_pixels_of(vertex1, vertex2, vertex3, style).len()
                    ==> #[trigger] styled_color(
                    triangle_pixels_of(vertex1, vertex2, vertex3, style)[i],
                    style,
                ),
    {
        let bbox = triangle_box(vertex1, vertex2, vertex3);
        proof {
            let v = seq![vertex1, vertex2, vertex3];
            if overlaps(self.canvas(), bbox) {
                lemma_vertices_in_plane(v, true, style);
                assert(point_ok(v[0]) && point_ok(v[1]) && point_ok(v[2]));
                assert(overlaps(self.canvas(), bbox) ==> representable(bbox));
            }
        }
        if !self.gate(&bbox) {
            return None;
        }
        let pixels = triangle_pixels(vertex1, vertex2, vertex3, style);
        self.surface.plot(&pixels);
        Some(bbox)
    }

    /// Draws connected line segments through the points in order.
    pub fn polyline(&mut self, points: &Vec<Point>, style: Style) -> (r: Option<Rectangle>)
        requires
            old(self).wf(),
            polyline_span_ok(points@),
            overlaps(old(self).canvas(), polyline_box_of(points@)) ==> vertices_ok(
                points@,
                false,
                style,
            ),
        ensures
            r == old(self).outcome(polyline_box_of(points@)),
            old(self).drawn(final(self), r, polyline_pixels_of(points@, style)),
            r is Some ==> forall|i: int|
                0 <= i < polyline_pixels_of(points@, style).len() ==> #[trigger] styled_color(
                    polyline_pixels_of(points@, style)[i],
                    style,
                ),
    {
        let bbox = polyline_box(points);
        proof {
            if overlaps(self.canvas(), bbox) {
                lemma_vertices_in_plane(points@, false, style);
                lemma_polyline_box_representable(points@);
            }
        }
        if !self.gate(&bbox) {
            return None;
        }
        let pixels = polyline_pixels(points, style);
        self.surface.plot(&pixels);
        Some(bbox)
    }

    /// Sets a label at `position` in the face that `size` selects, and reports the
    /// text's box. The glyph pixels are taken as given: they are whatever the text
    /// renderer produced for this label, face, color and style, and nothing here
    /// checks them against those. They are written only when the box meets the
    /// canvas.
    pub fn text(
        &mut self,
        position: Point,
        label: &str,
        size: u8,
        text_style: Option<TextStyle>,
        glyphs: &Vec<Pixel>,
    ) -> (r: Option<Rectangle>)
        requires
            old(self).wf(),
            text_ok(position, label@),
        ensures
            r == old(self).text_outcome(
                text_box_of(
                    position,
                    label@,
                    font_for(size),
                    alignment_of(text_style),
                    baseline_of(text_style),
                ),
            ),
            old(self).drawn(final(self), r, glyphs@),
    {
        let alignment = match text_style {
            Some(TextStyle { alignment: Some(a), .. }) => a,
            _ => Alignment::Left,
        };
        let baseline = match text_style {
            Some(TextStyle { baseline: Some(b), .. }) => b,
            _ => Baseline::Alphabetic,
        };
        let bbox = text_box(position, label, font_for_size(size), alignment, baseline);
        if !self.gate(&bbox) {
            return None;
        }
        self.surface.plot(glyphs);
        Some(bbox)
    }

    /// Whether a label fits the range the text renderer measures in without overflow.
    pub fn text_in_range(position: &Point, label: &str) -> (r: bool)
        ensures
            r == text_ok(*position, label@),
    {
        point_in_range(position) && label.unicode_len() <= 0x1_0000
    }
}

/// A circle drawn with a stroke color and no fill leaves every canvas pixel either
/// as it was or in the stroke color with an opaque alpha. The premises are what
/// `Drawing::circle` ensures of a call that reported a box.
pub proof fn lemma_outline_in_stroke_color(
    before: Drawing,
    after: Drawing,
    top_left: Point,
    diameter: u32,
    style: Style,
    stroke: Color,
    r: Option<Rectangle>,
    x: int,
    y: int,
)
    requires
        before.wf(),
        style.fill_color is None,
        style.stroke_color == Some(stroke),
        r is Some,
        before.drawn(&after, r, circle_pixels_of(top_left, diameter, style)),
        forall|i: int|
            0 <= i < circle_pixels_of(top_left, diameter, style).len() ==> #[trigger] styled_color(
                circle_pixels_of(top_left, diameter, style)[i],
                style,
            ),
        in_canvas(before.columns(), before.rows(), x, y),
    ensures
        channels(after.bytes(), after.columns(), x, y) == channels(
            before.bytes(),
            before.columns(),
            x,
            y,
        ) || channels(after.bytes(), after.columns(), x, y) == (
            stroke.red,
            stroke.green,
            stroke.blue,
            255u8,
        ),
{
    let pixels = circle_pixels_of(top_left, diameter, style);
    assert forall|i: int| 0 <= i < pixels.len() implies (#[trigger] pixels[i]).color == stroke by {
        assert(styled_color(pixels[i], style));
    }
    lemma_paint_in_color(before.bytes(), before.columns(), before.rows(), pixels, stroke, x, y);
}

} // verus!
