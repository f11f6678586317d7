use embedded_graphics::geometry::Angle;
use shared_canvas::bounds::is_inside;
use shared_canvas::drawing::{
    ellipse_in_range, font_for_size, line_in_range, point_in_range, round_in_range,
    rounded_in_range, vertices_in_range, Drawing,
};
use shared_canvas::objects::{
    Alignment, Baseline, Color, Corners, Pixel, Point, Rectangle, Size, Style, TextStyle,
};
use shared_canvas::raster::Font;
use shared_canvas::surface::{Surface, SurfaceError};

fn canvas(width: u32, height: u32) -> Drawing {
    Drawing::new(vec![0u8; (width * height * 4) as usize], width, height).unwrap()
}

fn rect(x: i32, y: i32, w: u32, h: u32) -> Rectangle {
    Rectangle::new(Point::new(x, y), Size::new(w, h))
}

fn stroke(r: u8, g: u8, b: u8, width: u32) -> Style {
    Style::new(None, Some(Color::new(r, g, b)), Some(width))
}

fn bytes(d: &Drawing) -> Vec<u8> {
    d.surface().as_bytes().to_vec()
}

fn painted(d: &Drawing) -> usize {
    bytes(d).chunks(4).filter(|p| p[3] == 255).count()
}

#[test]
fn collide_is_symmetric() {
    let a = rect(0, 0, 4, 4);
    let b = rect(3, 3, 4, 4);
    let c = rect(10, 10, 1, 1);
    assert!(a.collide(&b) && b.collide(&a));
    assert!(!a.collide(&c) && !c.collide(&a));
}

#[test]
fn collide_counts_touching_edges() {
    let a = rect(0, 0, 4, 4);
    assert!(a.collide(&rect(4, 0, 2, 2)));
    assert!(a.collide(&rect(0, 4, 2, 2)));
    assert!(!a.collide(&rect(5, 0, 2, 2)));
    assert!(!a.collide(&rect(0, -3, 2, 2)));
}

#[test]
fn intersect_uses_unit_square() {
    let r = rect(5, 0, 2, 2);
    assert!(r.intersect(&Point::new(6, 1)));
    assert!(r.intersect(&Point::new(4, 0)));
    assert!(!r.intersect(&Point::new(0, 0)));
}

#[test]
fn distance_in_vertical_span() {
    let r = rect(5, 0, 2, 2);
    assert_eq!(r.distance(&Point::new(0, 0)), 5);
    assert_eq!(r.distance(&Point::new(10, 1)), 3);
}

#[test]
fn distance_in_horizontal_span() {
    let r = rect(0, 5, 4, 2);
    assert_eq!(r.distance(&Point::new(2, 0)), 5);
    assert_eq!(r.distance(&Point::new(1, 12)), 5);
}

#[test]
fn distance_to_nearest_corner() {
    let r = rect(0, 0, 2, 2);
    assert_eq!(r.distance(&Point::new(5, 6)), 5);
    assert_eq!(r.distance(&Point::new(-2, -3)), 3);
}

#[test]
fn distance_zero_iff_intersect() {
    let r = rect(2, 2, 3, 3);
    for x in -3..10 {
        for y in -3..10 {
            let p = Point::new(x, y);
            assert_eq!(r.distance(&p) == 0, r.intersect(&p));
        }
    }
}

#[test]
fn point_distance_truncates() {
    assert_eq!(Point::new(0, 0).distance(&Point::new(3, 4)), 5);
    assert_eq!(Point::new(0, 0).distance(&Point::new(1, 1)), 1);
    assert_eq!(Point::new(-2, -2).distance(&Point::new(2, 2)), 5);
    assert_eq!(Point::new(7, 7).distance(&Point::new(7, 7)), 0);
}

#[test]
fn is_inside_means_any_overlap() {
    let c = rect(0, 0, 10, 10);
    assert!(is_inside(&c, &rect(-5, -5, 6, 6)));
    assert!(is_inside(&c, &rect(2, 2, 3, 3)));
    assert!(!is_inside(&c, &rect(-5, -5, 5, 5)));
    assert!(!is_inside(&c, &rect(10, 0, 3, 3)));
    assert!(!is_inside(&c, &rect(3, 3, 0, 4)));
}

#[test]
fn surface_rejects_undersized_buffer() {
    assert_eq!(Surface::new(vec![0u8; 399], 10, 10).err(), Some(SurfaceError::Undersized));
    assert!(Drawing::new(vec![0u8; 399], 10, 10).is_err());
}

#[test]
fn surface_rejects_oversized_dimensions() {
    assert_eq!(Surface::new(vec![], 0x8000_0000, 1).err(), Some(SurfaceError::TooLarge));
    assert_eq!(Surface::new(vec![], 1, u32::MAX).err(), Some(SurfaceError::TooLarge));
}

#[test]
fn surface_accepts_longer_buffer() {
    let s = Surface::new(vec![7u8; 500], 10, 10).unwrap();
    assert_eq!(s.as_bytes().len(), 500);
    assert_eq!((s.width(), s.height()), (10, 10));
}

#[test]
fn write_pixel_sets_opaque_color() {
    let mut s = Surface::new(vec![0u8; 400], 10, 10).unwrap();
    s.write_pixel(3, 2, Color::new(1, 2, 3));
    assert_eq!(s.pixel(3, 2), Some((1, 2, 3, 255)));
    let i = (3 + 2 * 10) * 4;
    assert_eq!(&s.as_bytes()[i..i + 4], &[1, 2, 3, 255]);
}

#[test]
fn write_pixel_drops_out_of_range() {
    let mut s = Surface::new(vec![0u8; 400], 10, 10).unwrap();
    s.write_pixel(-1, 0, Color::new(9, 9, 9));
    s.write_pixel(0, -1, Color::new(9, 9, 9));
    s.write_pixel(10, 0, Color::new(9, 9, 9));
    s.write_pixel(0, 10, Color::new(9, 9, 9));
    s.write_pixel(i32::MIN, i32::MAX, Color::new(9, 9, 9));
    assert!(s.as_bytes().iter().all(|b| *b == 0));
    assert_eq!(s.pixel(10, 0), None);
}

#[test]
fn plot_writes_in_order() {
    let mut s = Surface::new(vec![0u8; 16], 2, 2).unwrap();
    let px = vec![
        Pixel::new(0, 0, Color::new(1, 1, 1)),
        Pixel::new(5, 5, Color::new(2, 2, 2)),
        Pixel::new(0, 0, Color::new(3, 4, 5)),
    ];
    s.plot(&px);
    assert_eq!(s.pixel(0, 0), Some((3, 4, 5, 255)));
    assert_eq!(s.pixel(1, 1), Some((0, 0, 0, 0)));
}

#[test]
fn clear_zeroes_every_pixel() {
    let mut d = Drawing::new(vec![5u8; 400], 10, 10).unwrap();
    d.clear();
    for x in 0..10 {
        for y in 0..10 {
            assert_eq!(d.pixel(x, y), Some((0, 0, 0, 0)));
        }
    }
    assert!(bytes(&d).iter().all(|b| *b == 0));
}

#[test]
fn line_off_canvas_is_rejected() {
    let mut d = canvas(10, 10);
    let r = d.line(Point::new(-5, -5), Point::new(-1, -1), stroke(255, 0, 0, 1));
    assert_eq!(r, None);
    assert!(bytes(&d).iter().all(|b| *b == 0));
}

#[test]
fn line_reports_unclipped_box() {
    let mut d = canvas(10, 10);
    let r = d.line(Point::new(-5, -5), Point::new(4, 4), stroke(0, 255, 0, 1));
    assert_eq!(r, Some(rect(-5, -5, 10, 10)));
    assert_eq!(d.pixel(0, 0), Some((0, 255, 0, 255)));
    assert_eq!(d.pixel(4, 4), Some((0, 255, 0, 255)));
    assert_eq!(painted(&d), 5);
}

#[test]
fn line_box_spans_both_ends() {
    let mut d = canvas(10, 10);
    let r = d.line(Point::new(8, 1), Point::new(2, 6), stroke(1, 1, 1, 1));
    assert_eq!(r, Some(rect(2, 1, 7, 6)));
}

#[test]
fn circle_on_canvas_is_drawn() {
    let mut d = canvas(10, 10);
    let r = d.circle(Point::new(5, 5), 4, stroke(255, 0, 0, 1));
    assert_eq!(r, Some(rect(5, 5, 4, 4)));
    let b = bytes(&d);
    let mut seen = 0;
    for px in b.chunks(4) {
        if px != [0, 0, 0, 0] {
            assert_eq!(px, [255, 0, 0, 255]);
            seen += 1;
        }
    }
    assert!(seen > 0);
    assert_eq!(d.pixel(7, 7), Some((0, 0, 0, 0)));
}

#[test]
fn circle_partly_off_canvas_reports_full_box() {
    let mut d = canvas(10, 10);
    let r = d.circle(Point::new(7, 7), 6, stroke(0, 0, 255, 1));
    assert_eq!(r, Some(rect(7, 7, 6, 6)));
    assert!(painted(&d) > 0);
}

#[test]
fn circle_touching_edge_only_is_rejected() {
    let mut d = canvas(10, 10);
    assert_eq!(d.circle(Point::new(10, 0), 4, stroke(0, 0, 255, 1)), None);
    assert_eq!(d.circle(Point::new(-4, 0), 4, stroke(0, 0, 255, 1)), None);
    assert_eq!(painted(&d), 0);
}

#[test]
fn filled_rectangle_covers_its_pixels() {
    let mut d = canvas(10, 10);
    let style = Style::new(Some(Color::new(9, 8, 7)), None, None);
    let r = d.rectangle(Point::new(1, 2), Size::new(3, 2), style, None);
    assert_eq!(r, Some(rect(1, 2, 3, 2)));
    assert_eq!(painted(&d), 6);
    assert_eq!(d.pixel(3, 3), Some((9, 8, 7, 255)));
    assert_eq!(d.pixel(4, 3), Some((0, 0, 0, 0)));
}

#[test]
fn empty_style_draws_nothing() {
    let mut d = canvas(10, 10);
    let r = d.rectangle(Point::new(1, 1), Size::new(4, 4), Style::new(None, None, None), None);
    assert_eq!(r, Some(rect(1, 1, 4, 4)));
    assert_eq!(painted(&d), 0);
}

#[test]
fn rectangle_with_radius_rounds_corners() {
    let mut d = canvas(10, 10);
    let style = Style::new(Some(Color::new(1, 2, 3)), None, None);
    let r = d.rectangle(Point::new(0, 0), Size::new(10, 10), style, Some(3));
    assert_eq!(r, Some(rect(0, 0, 10, 10)));
    assert_eq!(d.pixel(0, 0), Some((0, 0, 0, 0)));
    assert_eq!(d.pixel(5, 5), Some((1, 2, 3, 255)));
}

#[test]
fn rounded_rectangle_per_corner() {
    let mut d = canvas(10, 10);
    let style = Style::new(Some(Color::new(4, 5, 6)), None, None);
    let zero = Size::new(0, 0);
    let corners = Corners::new(Size::new(4, 4), zero, zero, zero);
    let r = d.rounded_rectangle(Point::new(0, 0), Size::new(10, 10), style, corners);
    assert_eq!(r, Some(rect(0, 0, 10, 10)));
    assert_eq!(d.pixel(0, 0), Some((0, 0, 0, 0)));
    assert_eq!(d.pixel(9, 0), Some((4, 5, 6, 255)));
    assert_eq!(d.pixel(9, 9), Some((4, 5, 6, 255)));
}

#[test]
fn arc_and_sector_report_circle_box() {
    let mut d = canvas(20, 20);
    let a = d.arc(
        Point::new(2, 2),
        10,
        Angle::from_degrees(0.0),
        Angle::from_degrees(90.0),
        stroke(10, 20, 30, 1),
    );
    assert_eq!(a, Some(rect(2, 2, 10, 10)));
    assert!(painted(&d) > 0);
    let mut e = canvas(20, 20);
    let fill = Style::new(Some(Color::new(1, 1, 1)), None, None);
    let s = e.sector(
        Point::new(30, 30),
        10,
        Angle::from_degrees(0.0),
        Angle::from_degrees(90.0),
        fill,
    );
    assert_eq!(s, None);
    assert_eq!(painted(&e), 0);
}

#[test]
fn sector_is_drawn() {
    let mut d = canvas(20, 20);
    let fill = Style::new(Some(Color::new(1, 1, 1)), None, None);
    let s = d.sector(
        Point::new(0, 0),
        20,
        Angle::from_degrees(0.0),
        Angle::from_degrees(90.0),
        fill,
    );
    assert_eq!(s, Some(rect(0, 0, 20, 20)));
    assert!(painted(&d) > 0);
}

#[test]
fn ellipse_is_drawn() {
    let mut d = canvas(20, 20);
    let fill = Style::new(Some(Color::new(3, 3, 3)), None, None);
    let r = d.ellipse(Point::new(2, 4), Size::new(16, 8), fill);
    assert_eq!(r, Some(rect(2, 4, 16, 8)));
    assert_eq!(d.pixel(10, 8), Some((3, 3, 3, 255)));
    assert_eq!(d.pixel(2, 4), Some((0, 0, 0, 0)));
}

#[test]
fn triangle_box_spans_vertices() {
    let mut d = canvas(20, 20);
    let fill = Style::new(Some(Color::new(6, 6, 6)), None, None);
    let r = d.triangle(Point::new(2, 2), Point::new(12, 4), Point::new(5, 15), fill);
    assert_eq!(r, Some(rect(2, 2, 11, 14)));
    assert!(painted(&d) > 0);
}

#[test]
fn polyline_box_and_pixels() {
    let mut d = canvas(20, 20);
    let pts = vec![Point::new(1, 1), Point::new(10, 1), Point::new(10, 8)];
    let r = d.polyline(&pts, stroke(2, 2, 2, 1));
    assert_eq!(r, Some(rect(1, 1, 10, 8)));
    assert_eq!(d.pixel(5, 1), Some((2, 2, 2, 255)));
    assert_eq!(d.pixel(10, 5), Some((2, 2, 2, 255)));
}

#[test]
fn polyline_without_points_is_rejected() {
    let mut d = canvas(20, 20);
    assert_eq!(d.polyline(&vec![], stroke(2, 2, 2, 1)), None);
    assert_eq!(d.polyline(&vec![Point::new(3, 3)], stroke(2, 2, 2, 1)), None);
}

#[test]
fn empty_style_with_large_radius_reports_box() {
    let mut d = canvas(10, 10);
    let none = Style::new(None, None, None);
    let r = d.rectangle(Point::new(0, 0), Size::new(10, 10), none, Some(200));
    assert_eq!(r, Some(rect(0, 0, 10, 10)));
    assert_eq!(painted(&d), 0);
}

#[test]
fn radius_does_not_change_the_result() {
    let mut a = canvas(10, 10);
    let mut b = canvas(10, 10);
    let fill = Style::new(Some(Color::new(1, 1, 1)), None, None);
    let ra = a.rectangle(Point::new(-2, -2), Size::new(20, 20), fill, Some(200));
    let rb = b.rectangle(Point::new(-2, -2), Size::new(20, 20), fill, None);
    assert_eq!(ra, rb);
    assert_eq!(ra, Some(rect(-2, -2, 20, 20)));
}

#[test]
fn rounded_rectangle_with_large_radii_reports_box() {
    let mut d = canvas(10, 10);
    let fill = Style::new(Some(Color::new(2, 2, 2)), None, None);
    let big = Size::new(200, 200);
    let r = d.rounded_rectangle(Point::new(0, 0), Size::new(10, 10), fill, Corners::new(big, big, big, big));
    assert_eq!(r, Some(rect(0, 0, 10, 10)));
    assert!(painted(&d) > 0);
}

#[test]
fn large_sector_at_origin_is_drawn() {
    let mut d = canvas(10, 10);
    let fill = Style::new(Some(Color::new(5, 5, 5)), None, None);
    let r = d.sector(Point::new(0, 0), 5000, Angle::from_degrees(0.0), Angle::from_degrees(360.0), fill);
    assert_eq!(r, Some(rect(0, 0, 5000, 5000)));
}

#[test]
fn long_thin_line_is_drawn() {
    let mut d = canvas(10, 10);
    let r = d.line(Point::new(0, 0), Point::new(5000, 0), stroke(1, 2, 3, 1));
    assert_eq!(r, Some(rect(0, 0, 5001, 1)));
    assert_eq!(d.pixel(9, 0), Some((1, 2, 3, 255)));
}

#[test]
fn far_text_reaching_the_canvas_is_drawn() {
    let mut d = canvas(40, 20);
    let label: String = std::iter::repeat('a').take(1100).collect();
    let style = TextStyle::new(Some("right".to_string()), Some("top".to_string()));
    let none: Vec<Pixel> = vec![];
    let r = d.text(Point::new(5000, 0), &label, 7, Some(style), &none).unwrap();
    assert!(r.top_left.x < 40 && r.top_left.x + r.size.width as i32 > 0);
}

#[test]
fn limit_checks_follow_the_rasterizer_arithmetic() {
    assert!(!line_in_range(&Point::new(-4096, -4096), &Point::new(4095, 4095), &stroke(0, 0, 0, 2)));
    assert!(line_in_range(&Point::new(-4096, -4096), &Point::new(4095, 4095), &stroke(0, 0, 0, 1)));
    assert!(line_in_range(&Point::new(0, 0), &Point::new(5000, 0), &stroke(0, 0, 0, 1)));
    let fill = Style::new(Some(Color::new(1, 1, 1)), None, None);
    assert!(!ellipse_in_range(&Point::new(0, 0), &Size::new(255, 257), &fill));
    assert!(ellipse_in_range(&Point::new(0, 0), &Size::new(300, 300), &fill));
    assert!(ellipse_in_range(&Point::new(0, 0), &Size::new(200, 150), &fill));
    assert!(!ellipse_in_range(&Point::new(0, 0), &Size::new(300, 160), &fill));
    assert!(ellipse_in_range(&Point::new(0, 0), &Size::new(200, 200), &fill));
    let odd = Size::new(127, 126);
    assert!(!rounded_in_range(&Point::new(0, 0), &Size::new(300, 300), &Corners::new(odd, odd, odd, odd), &fill));
    assert!(round_in_range(&Point::new(0, 0), 5000, &fill));
    assert!(round_in_range(&Point::new(0, 0), 20000, &fill));
    assert!(!round_in_range(&Point::new(0, 0), 40000, &fill));
    assert!(point_in_range(&Point::new(5000, -5000)));
    assert!(!point_in_range(&Point::new(i32::MAX, 0)));
    let far = vec![Point::new(0, 0), Point::new(200, 0)];
    assert!(vertices_in_range(&far, false, &stroke(1, 1, 1, 1)));
    assert!(!vertices_in_range(&far, false, &stroke(1, 1, 1, 3)));
    assert!(!vertices_in_range(&far, true, &fill));
    assert!(Drawing::text_in_range(&Point::new(5000, 0), "label"));
}

#[test]
fn font_sizes_select_faces_by_range() {
    assert_eq!(font_for_size(0), Font::Point7);
    assert_eq!(font_for_size(7), Font::Point7);
    assert_eq!(font_for_size(8), Font::Point9);
    assert_eq!(font_for_size(9), Font::Point9);
    assert_eq!(font_for_size(10), Font::Point10);
    assert_eq!(font_for_size(11), Font::Point12);
    assert_eq!(font_for_size(12), Font::Point12);
    assert_eq!(font_for_size(14), Font::Point14);
    assert_eq!(font_for_size(15), Font::Point18);
    assert_eq!(font_for_size(18), Font::Point18);
    assert_eq!(font_for_size(19), Font::Point24);
    assert_eq!(font_for_size(255), Font::Point24);
}

#[test]
fn text_style_names() {
    let t = TextStyle::new(Some("center".to_string()), Some("top".to_string()));
    assert_eq!(t.alignment, Some(Alignment::Center));
    assert_eq!(t.baseline, Some(Baseline::Top));
    let t = TextStyle::new(Some("right".to_string()), Some("middle".to_string()));
    assert_eq!(t.alignment, Some(Alignment::Right));
    assert_eq!(t.baseline, Some(Baseline::Middle));
    let t = TextStyle::new(Some("bogus".to_string()), Some("bottom".to_string()));
    assert_eq!(t.alignment, Some(Alignment::Left));
    assert_eq!(t.baseline, Some(Baseline::Bottom));
    let t = TextStyle::new(None, Some("nope".to_string()));
    assert_eq!(t.alignment, None);
    assert_eq!(t.baseline, Some(Baseline::Alphabetic));
}

#[test]
fn text_gates_on_its_box() {
    let mut d = canvas(40, 20);
    let glyphs = vec![Pixel::new(1, 1, Color::new(7, 7, 7))];
    let r = d.text(Point::new(0, 0), "Hi", 10, Some(TextStyle::new(None, Some("top".to_string()))), &glyphs);
    let b = r.unwrap();
    assert_eq!(b.top_left, Point::new(0, 0));
    assert!(b.size.width > 0 && b.size.height > 0);
    assert_eq!(d.pixel(1, 1), Some((7, 7, 7, 255)));
    let mut e = canvas(40, 20);
    let off = e.text(Point::new(-500, -500), "Hi", 10, None, &glyphs);
    assert_eq!(off, None);
    assert_eq!(painted(&e), 0);
}

#[test]
fn larger_font_gives_larger_text_box() {
    let mut d = canvas(200, 100);
    let none: Vec<Pixel> = vec![];
    let small = d.text(Point::new(0, 50), "abc", 7, None, &none).unwrap();
    let large = d.text(Point::new(0, 50), "abc", 24, None, &none).unwrap();
    assert!(large.size.width > small.size.width);
    assert!(large.size.height > small.size.height);
}

#[test]
fn large_round_ellipse_is_drawn() {
    let mut d = canvas(10, 10);
    let fill = Style::new(Some(Color::new(8, 8, 8)), None, None);
    let r = d.ellipse(Point::new(-145, -145), Size::new(300, 300), fill);
    assert_eq!(r, Some(rect(-145, -145, 300, 300)));
    assert_eq!(d.pixel(5, 5), Some((8, 8, 8, 255)));
}

#[test]
fn clear_keeps_bytes_past_the_canvas() {
    let mut d = Drawing::new(vec![7u8; 5], 1, 1).unwrap();
    d.clear();
    assert_eq!(bytes(&d), vec![0, 0, 0, 0, 7]);
}

#[test]
fn zero_area_canvas_is_accepted() {
    let mut d = Drawing::new(vec![], 0, 0x8000_0000).unwrap();
    assert_eq!(d.surface().width(), 0);
    assert_eq!(d.circle(Point::new(0, 0), 4, stroke(1, 1, 1, 1)), None);
    d.clear();
    assert!(Surface::new(vec![], 0x8000_0000, 0).is_ok());
}

#[test]
fn far_off_shapes_beyond_the_range_are_not_drawn() {
    let mut d = canvas(10, 10);
    let thick = stroke(1, 1, 1, 50);
    assert!(d.admits_line(&Point::new(100_000, 0), &Point::new(200_000, 0), &thick));
    assert_eq!(d.line(Point::new(100_000, 0), Point::new(200_000, 0), thick), None);
    assert!(d.admits_round(&Point::new(-1_000_000, 0), 100_000, &thick));
    assert_eq!(
        d.arc(Point::new(-1_000_000, 0), 100_000, Angle::from_degrees(0.0), Angle::from_degrees(90.0), thick),
        None
    );
    let odd = Size::new(127, 126);
    let corners = Corners::new(odd, odd, odd, odd);
    assert!(d.admits_rounded(&Point::new(50, 50), &Size::new(300, 300), &corners, &thick));
    assert_eq!(d.rounded_rectangle(Point::new(50, 50), Size::new(300, 300), thick, corners), None);
    let far = vec![Point::new(100, 100), Point::new(900, 100), Point::new(900, 900)];
    assert!(d.admits_polyline(&far, &thick));
    assert_eq!(d.polyline(&far, thick), None);
    assert_eq!(painted(&d), 0);
}

#[test]
fn admits_refuses_overlapping_shapes_beyond_the_range() {
    let d = canvas(10, 10);
    let thick = stroke(1, 1, 1, 50);
    assert!(!d.admits_line(&Point::new(0, 0), &Point::new(5000, 0), &thick));
    assert!(!d.admits_line(&Point::new(i32::MIN, 0), &Point::new(i32::MAX, 0), &thick));
    assert!(!d.admits_round(&Point::new(0, 0), 40000, &thick));
    let odd = Size::new(127, 126);
    assert!(!d.admits_rounded(&Point::new(0, 0), &Size::new(300, 300), &Corners::new(odd, odd, odd, odd), &thick));
    assert!(!d.admits_ellipse(&Point::new(0, 0), &Size::new(255, 257), &Style::new(Some(Color::new(1, 1, 1)), None, None)));
    assert!(d.admits_rectangle(&Point::new(0, 0), &Size::new(10, 10), &thick, Some(200)));
    assert!(!d.admits_triangle(&Point::new(0, 0), &Point::new(500, 0), &Point::new(0, 500), &thick));
    assert!(d.meets_canvas(&rect(9, 9, 1, 1)));
    assert!(!d.meets_canvas(&rect(10, 0, 5, 5)));
    assert!(!d.meets_canvas(&rect(-5, -5, 5, 5)));
}
