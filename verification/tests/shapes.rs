use framesynth::shapes::{Circle, Line, Point, ScaleFactor, Shape, Triangle};

fn pt(x: i64, y: i64, z: i64) -> Point {
    Point::new(x, y, z)
}

#[test]
fn triangle_scale_identity() {
    let t = Triangle::new(pt(0, 0, 0), pt(1, 5, 0), pt(3, -2, 0));
    let s = t.scale(ScaleFactor::new(5, 5));
    assert_eq!(s, t);
}

#[test]
fn line_scale_identity() {
    let l = Line::new(pt(-7, 3, 1), pt(4, 4, 2));
    let s = l.scale(ScaleFactor::new(1, 1));
    assert_eq!(s, l);
}

#[test]
fn circle_scale_identity() {
    let c = Circle::new(pt(10, -10, 0), 25);
    let s = c.scale(ScaleFactor::new(3, 3));
    assert_eq!(s, c);
}

#[test]
fn shape_scale_identity() {
    let sh = Shape::Triangle(Triangle::new(pt(2, 2, 2), pt(8, 0, 0), pt(-4, 6, 0)));
    assert_eq!(sh.scale(ScaleFactor::new(1, 1)), sh);
}

#[test]
fn triangle_scale_round_trip() {
    // Corner sums divide by three and every offset is even, so scaling by
    // two and back by one half is exact.
    let t = Triangle::new(pt(0, 0, 0), pt(3, 6, 0), pt(6, 3, 0));
    let doubled = t.scale(ScaleFactor::new(2, 1));
    let back = doubled.scale(ScaleFactor::new(1, 2));
    assert_eq!(back, t);
}

#[test]
fn triangle_scale_doubles_offsets() {
    let t = Triangle::new(pt(0, 0, 0), pt(3, 0, 0), pt(6, 0, 0));
    let doubled = t.scale(ScaleFactor::new(2, 1));
    // Centroid is (3, 0, 0); offsets -3, 0, 3 become -6, 0, 6.
    assert_eq!(doubled.p1, pt(-3, 0, 0));
    assert_eq!(doubled.p2, pt(3, 0, 0));
    assert_eq!(doubled.p3, pt(9, 0, 0));
}

#[test]
fn line_scale_round_trip() {
    let l = Line::new(pt(-4, 2, 0), pt(4, 6, 0));
    let tripled = l.scale(ScaleFactor::new(3, 1));
    let back = tripled.scale(ScaleFactor::new(1, 3));
    assert_eq!(back, l);
}

#[test]
fn circle_scale_round_trip() {
    let c = Circle::new(pt(0, 0, 0), 10);
    let grown = c.scale(ScaleFactor::new(3, 2));
    assert_eq!(grown.radius, 15);
    let back = grown.scale(ScaleFactor::new(2, 3));
    assert_eq!(back, c);
}

#[test]
fn circle_scale_keeps_centre() {
    let c = Circle::new(pt(12, -7, 3), 8);
    let s = c.scale(ScaleFactor::new(1, 2));
    assert_eq!(s.position, pt(12, -7, 3));
    assert_eq!(s.radius, 4);
}

#[test]
fn negative_factor_inverts() {
    // A negative numerator mirrors every offset through the centroid.
    let l = Line::new(pt(-2, 0, 0), pt(2, 0, 0));
    let s = l.scale(ScaleFactor::new(-1, 1));
    assert_eq!(s.start, pt(2, 0, 0));
    assert_eq!(s.end, pt(-2, 0, 0));
}

#[test]
fn zero_factor_collapses_to_centroid() {
    let t = Triangle::new(pt(0, 0, 0), pt(3, 3, 0), pt(6, 6, 0));
    let s = t.scale(ScaleFactor::new(0, 1));
    assert_eq!(s.p1, pt(3, 3, 0));
    assert_eq!(s.p2, pt(3, 3, 0));
    assert_eq!(s.p3, pt(3, 3, 0));
}

#[test]
fn integer_scale_tracks_float_scale_within_a_pixel() {
    // The whole-pixel model stands for the float transform
    // p' = c + k * (p - c) about the centroid; rounding keeps every
    // coordinate within one pixel of the float result.
    let t = Triangle::new(pt(0, 0, 0), pt(7, 3, 0), pt(2, 9, 0));
    let s = t.scale(ScaleFactor::new(1, 2));
    let fp1 = glam::Vec3::new(0.0, 0.0, 0.0);
    let fp2 = glam::Vec3::new(7.0, 3.0, 0.0);
    let fp3 = glam::Vec3::new(2.0, 9.0, 0.0);
    let c = (fp1 + fp2 + fp3) / 3.0;
    let k = 0.5f32;
    let expected = [k * (fp1 - c) + c, k * (fp2 - c) + c, k * (fp3 - c) + c];
    let got = [s.p1, s.p2, s.p3];
    for (e, g) in expected.iter().zip(got.iter()) {
        assert!((e.x - g.x as f32).abs() <= 1.0);
        assert!((e.y - g.y as f32).abs() <= 1.0);
        assert!((e.z - g.z as f32).abs() <= 1.0);
    }
}

#[test]
fn draw_emits_one_command_per_shape() {
    let t = Triangle::new(pt(0, 0, 0), pt(1, 0, 0), pt(0, 1, 0));
    assert_eq!(t.draw().commands.len(), 1);
    let c = Circle::new(pt(0, 0, 0), 5);
    assert_eq!(c.draw().commands.len(), 1);
    let l = Line::new(pt(0, 0, 0), pt(1, 1, 0));
    assert_eq!(l.draw().commands.len(), 1);
}
