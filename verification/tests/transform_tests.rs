use plot_core::bounds::PlotBounds;
use plot_core::geom::{AxisBools, PlotPoint, ScreenPoint, ScreenRect};
use plot_core::scalar::PlotNum;
use plot_core::transform::PlotTransform;

fn point(x: i64, y: i64) -> PlotPoint {
    PlotPoint::new(PlotNum::from_int(x), PlotNum::from_int(y))
}

fn screen(x: i64, y: i64) -> ScreenPoint {
    ScreenPoint::new(PlotNum::from_int(x), PlotNum::from_int(y))
}

fn frame_100() -> ScreenRect {
    ScreenRect::new(screen(0, 0), screen(100, 100))
}

fn bounds_0_10() -> PlotBounds {
    PlotBounds::from_min_max(point(0, 0), point(10, 10))
}

#[test]
fn forward_mapping_square_frame() {
    let t = PlotTransform::new(frame_100(), bounds_0_10(), AxisBools::new(false, false));
    let px = t.position_from_point_x(PlotNum::from_int(5));
    assert!(px.same_value(PlotNum::from_int(50)));
    let py = t.position_from_point_y(PlotNum::from_int(5));
    assert!(py.same_value(PlotNum::from_int(50)));
    // the y axis is inverted: the data maximum maps to the top of the screen
    let py_max = t.position_from_point_y(PlotNum::from_int(10));
    assert!(py_max.same_value(PlotNum::from_int(0)));
    let py_min = t.position_from_point_y(PlotNum::from_int(0));
    assert!(py_min.same_value(PlotNum::from_int(100)));
}

#[test]
fn valid_bounds_pass_through_unchanged() {
    let t = PlotTransform::new(frame_100(), bounds_0_10(), AxisBools::new(false, false));
    let b = t.bounds();
    assert!(b.min().x.same_value(PlotNum::from_int(0)));
    assert!(b.min().y.same_value(PlotNum::from_int(0)));
    assert!(b.max().x.same_value(PlotNum::from_int(10)));
    assert!(b.max().y.same_value(PlotNum::from_int(10)));
    assert!(b.is_valid());
}

#[test]
fn zero_width_axis_borrows_from_the_other() {
    // x collapsed at 5, y valid with height 10: x becomes [0, 10]
    let b = PlotBounds::from_min_max(point(5, 0), point(5, 10));
    let t = PlotTransform::new(frame_100(), b, AxisBools::new(false, false));
    assert!(t.bounds().is_valid());
    assert!(t.bounds().min().x.same_value(PlotNum::from_int(0)));
    assert!(t.bounds().max().x.same_value(PlotNum::from_int(10)));
    assert!(t.bounds().min().y.same_value(PlotNum::from_int(0)));
    assert!(t.bounds().max().y.same_value(PlotNum::from_int(10)));
}

#[test]
fn degenerate_inputs_are_sanitized_to_valid_bounds() {
    // non-finite axes
    let infinite = PlotBounds::from_min_max(
        PlotPoint::new(PlotNum::NegInf, PlotNum::from_int(0)),
        PlotPoint::new(PlotNum::PosInf, PlotNum::from_int(0)),
    );
    let t = PlotTransform::new(frame_100(), infinite, AxisBools::new(false, false));
    assert!(t.bounds().is_valid());
    assert!(t.bounds().min().x.same_value(PlotNum::from_int(-1)));
    assert!(t.bounds().max().x.same_value(PlotNum::from_int(1)));

    // inverted order on both axes
    let inverted = PlotBounds::from_min_max(point(10, 10), point(0, 0));
    let t2 = PlotTransform::new(frame_100(), inverted, AxisBools::new(false, false));
    assert!(t2.bounds().is_valid());

    // the empty sentinel
    let t3 = PlotTransform::new(frame_100(), PlotBounds::nothing(), AxisBools::new(false, false));
    assert!(t3.bounds().is_valid());

    // fully collapsed: both axes fall back to width 2 around the midpoint
    let collapsed = PlotBounds::from_min_max(point(3, 4), point(3, 4));
    let t4 = PlotTransform::new(frame_100(), collapsed, AxisBools::new(false, false));
    assert!(t4.bounds().is_valid());
    assert!(t4.bounds().min().x.same_value(PlotNum::from_int(2)));
    assert!(t4.bounds().max().x.same_value(PlotNum::from_int(4)));
    assert!(t4.bounds().min().y.same_value(PlotNum::from_int(3)));
    assert!(t4.bounds().max().y.same_value(PlotNum::from_int(5)));
}

#[test]
fn round_trip_is_exact() {
    let t = PlotTransform::new(frame_100(), bounds_0_10(), AxisBools::new(false, false));
    let v = PlotPoint::new(PlotNum::rat(3, 2), PlotNum::rat(22, 7));
    let pos = t.position_from_point(&v);
    let back = t.value_from_position(pos);
    assert!(back.x.same_value(PlotNum::rat(3, 2)));
    assert!(back.y.same_value(PlotNum::rat(22, 7)));
}

#[test]
fn y_axis_is_inverted_and_x_is_increasing() {
    let t = PlotTransform::new(frame_100(), bounds_0_10(), AxisBools::new(false, false));
    let y2 = t.position_from_point_y(PlotNum::from_int(2));
    let y7 = t.position_from_point_y(PlotNum::from_int(7));
    // larger data y, smaller screen y
    assert!(y7.lt(y2));
    let x2 = t.position_from_point_x(PlotNum::from_int(2));
    let x7 = t.position_from_point_x(PlotNum::from_int(7));
    assert!(x2.lt(x7));
}

#[test]
fn zoom_in_halves_the_window_around_the_center() {
    let mut t = PlotTransform::new(frame_100(), bounds_0_10(), AxisBools::new(false, false));
    t.zoom(
        (PlotNum::from_int(2), PlotNum::from_int(2)),
        screen(50, 50),
    );
    assert!(t.bounds().is_valid());
    assert!(t.bounds().min().x.same_value(PlotNum::rat(5, 2)));
    assert!(t.bounds().max().x.same_value(PlotNum::rat(15, 2)));
    assert!(t.bounds().min().y.same_value(PlotNum::rat(5, 2)));
    assert!(t.bounds().max().y.same_value(PlotNum::rat(15, 2)));
}

#[test]
fn pathological_zoom_factor_is_discarded() {
    let mut t = PlotTransform::new(frame_100(), bounds_0_10(), AxisBools::new(false, false));
    t.zoom(
        (PlotNum::from_int(0), PlotNum::from_int(0)),
        screen(50, 50),
    );
    assert!(t.bounds().is_valid());
    assert!(t.bounds().min().x.same_value(PlotNum::from_int(0)));
    assert!(t.bounds().max().x.same_value(PlotNum::from_int(10)));
    assert!(t.bounds().min().y.same_value(PlotNum::from_int(0)));
    assert!(t.bounds().max().y.same_value(PlotNum::from_int(10)));
}

#[test]
fn centering_makes_an_axis_symmetric_about_zero() {
    let b = PlotBounds::from_min_max(point(-2, 1), point(1, 3));
    let t = PlotTransform::new(frame_100(), b, AxisBools::new(true, false));
    assert!(t.bounds().min().x.same_value(PlotNum::from_int(-2)));
    assert!(t.bounds().max().x.same_value(PlotNum::from_int(2)));
    assert!(t.bounds().min().y.same_value(PlotNum::from_int(1)));
    assert!(t.bounds().max().y.same_value(PlotNum::from_int(3)));
}

#[test]
fn centered_axis_cannot_be_panned() {
    let mut t = PlotTransform::new(frame_100(), bounds_0_10(), AxisBools::new(true, false));
    let old_min_x = t.bounds().min().x;
    let old_max_x = t.bounds().max().x;
    t.translate_bounds((PlotNum::from_int(10), PlotNum::from_int(10)));
    assert!(t.bounds().min().x.same_value(old_min_x));
    assert!(t.bounds().max().x.same_value(old_max_x));
    // the y axis did move: 10 screen units down is -1 data unit
    assert!(t.bounds().min().y.same_value(PlotNum::from_int(-1)));
    assert!(t.bounds().max().y.same_value(PlotNum::from_int(9)));
}

#[test]
fn pan_converts_screen_delta_to_data_delta() {
    let mut t = PlotTransform::new(frame_100(), bounds_0_10(), AxisBools::new(false, false));
    // 10 screen units to the right is +1 data unit on x
    t.translate_bounds((PlotNum::from_int(10), PlotNum::from_int(0)));
    assert!(t.bounds().min().x.same_value(PlotNum::from_int(1)));
    assert!(t.bounds().max().x.same_value(PlotNum::from_int(11)));
}

#[test]
fn scale_derivatives() {
    let frame = ScreenRect::new(screen(0, 0), screen(200, 100));
    let t = PlotTransform::new(frame, bounds_0_10(), AxisBools::new(false, false));
    let d = t.dpos_dvalue();
    assert!(d.0.same_value(PlotNum::from_int(20)));
    // negative: the y axis is inverted
    assert!(d.1.same_value(PlotNum::from_int(-10)));
    let dv = t.dvalue_dpos();
    assert!(dv.0.same_value(PlotNum::rat(1, 20)));
    assert!(dv.1.same_value(PlotNum::rat(-1, 10)));
}

#[test]
fn aspect_expansion_widens_the_narrow_axis() {
    // bounds 10 wide, 5 tall on a square frame: aspect 2; target 1
    let b = PlotBounds::from_min_max(point(0, 0), point(10, 5));
    let mut t = PlotTransform::new(frame_100(), b, AxisBools::new(false, false));
    t.set_aspect_by_expanding(PlotNum::from_int(1));
    assert!(t.bounds().min().x.same_value(PlotNum::from_int(0)));
    assert!(t.bounds().max().x.same_value(PlotNum::from_int(10)));
    // the y axis expanded symmetrically from height 5 to height 10
    assert!(t.bounds().min().y.same_value(PlotNum::rat(-5, 2)));
    assert!(t.bounds().max().y.same_value(PlotNum::rat(15, 2)));
}

#[test]
fn bounds_expansion_and_merge() {
    let mut b = PlotBounds::nothing();
    assert!(!b.is_valid());
    b.extend_with(&point(2, 3));
    assert!(b.min().x.same_value(PlotNum::from_int(2)));
    assert!(b.max().x.same_value(PlotNum::from_int(2)));
    b.extend_with(&point(-1, 7));
    assert!(b.min().x.same_value(PlotNum::from_int(-1)));
    assert!(b.max().x.same_value(PlotNum::from_int(2)));
    assert!(b.min().y.same_value(PlotNum::from_int(3)));
    assert!(b.max().y.same_value(PlotNum::from_int(7)));
    let mut other = PlotBounds::from_min_max(point(-5, 4), point(0, 5));
    other.merge(&b);
    assert!(other.min().x.same_value(PlotNum::from_int(-5)));
    assert!(other.max().x.same_value(PlotNum::from_int(2)));
    assert!(other.min().y.same_value(PlotNum::from_int(3)));
    assert!(other.max().y.same_value(PlotNum::from_int(7)));
}

#[test]
fn translate_and_zoom_bounds_directly() {
    let mut b = bounds_0_10();
    b.translate_x(PlotNum::rat(1, 2));
    assert!(b.min().x.same_value(PlotNum::rat(1, 2)));
    assert!(b.max().x.same_value(PlotNum::rat(21, 2)));
    // a non-finite delta is ignored
    b.translate_y(PlotNum::PosInf);
    assert!(b.min().y.same_value(PlotNum::from_int(0)));
    let mut z = bounds_0_10();
    z.zoom(
        (PlotNum::from_int(2), PlotNum::from_int(2)),
        PlotPoint::new(PlotNum::from_int(5), PlotNum::from_int(5)),
    );
    assert!(z.min().x.same_value(PlotNum::rat(5, 2)));
    assert!(z.max().x.same_value(PlotNum::rat(15, 2)));
}

#[test]
fn arithmetic_edge_values() {
    // opposite infinities cancel to not-a-number
    let s = PlotNum::PosInf.add_num(PlotNum::NegInf);
    assert!(s.is_not_a_num());
    // division by zero gives a signed infinity
    let d = PlotNum::from_int(3).div_num(PlotNum::from_int(0));
    assert!(!d.is_finite());
    // exact fractions reduce on the way through
    let q = PlotNum::rat(1, 3).add_num(PlotNum::rat(1, 6));
    assert!(q.same_value(PlotNum::rat(1, 2)));
    let (num, den) = q.parts();
    assert_eq!((num as i128) * 2, den as i128);
}
