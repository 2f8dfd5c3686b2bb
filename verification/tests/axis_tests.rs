use plot_core::axis::{
    fade_strength, place_tick_labels, thickness_with_title, title_position, Axis, AxisHints,
    AxisWidget, GridMark, HPlacement, Placement, TextSize, VPlacement,
};
use plot_core::bounds::PlotBounds;
use plot_core::geom::{AxisBools, PlotPoint, ScreenPoint, ScreenRect};
use plot_core::scalar::PlotNum;
use plot_core::transform::PlotTransform;

fn n(v: i64) -> PlotNum {
    PlotNum::from_int(v)
}

fn unit_scale_transform() -> PlotTransform {
    // a 100-unit frame over a 100-unit window: one screen unit per data unit
    let frame = ScreenRect::new(
        ScreenPoint::new(n(0), n(0)),
        ScreenPoint::new(n(100), n(100)),
    );
    let bounds = PlotBounds::from_min_max(
        PlotPoint::new(n(0), n(0)),
        PlotPoint::new(n(100), n(100)),
    );
    PlotTransform::new(frame, bounds, AxisBools::new(false, false))
}

#[test]
fn placement_enums_are_two_views_of_one_choice() {
    assert_eq!(Placement::from(HPlacement::Left), Placement::LeftBottom);
    assert_eq!(Placement::from(HPlacement::Right), Placement::RightTop);
    assert_eq!(HPlacement::from(Placement::LeftBottom), HPlacement::Left);
    assert_eq!(Placement::from(VPlacement::Bottom), Placement::LeftBottom);
    assert_eq!(Placement::from(VPlacement::Top), Placement::RightTop);
    assert_eq!(VPlacement::from(Placement::RightTop), VPlacement::Top);
    assert_eq!(usize::from(Axis::X), 0);
    assert_eq!(usize::from(Axis::Y), 1);
}

#[test]
fn fade_strength_ramp() {
    let mn = n(20);
    let mx = n(30);
    assert!(fade_strength(n(15), mn, mx).same_value(n(0)));
    assert!(fade_strength(n(20), mn, mx).same_value(n(0)));
    assert!(fade_strength(n(22), mn, mx).same_value(PlotNum::rat(1, 5)));
    assert!(fade_strength(n(25), mn, mx).same_value(PlotNum::rat(1, 2)));
    assert!(fade_strength(n(30), mn, mx).same_value(n(1)));
    assert!(fade_strength(n(35), mn, mx).same_value(n(1)));
}

#[test]
fn label_fade_cutoff_and_strengths() {
    let t = unit_scale_transform();
    let strip = ScreenRect::new(
        ScreenPoint::new(n(0), n(100)),
        ScreenPoint::new(n(100), n(120)),
    );
    // one screen unit per data unit: the step size is the spacing
    let steps = vec![
        GridMark::new(n(10), n(15)),
        GridMark::new(n(20), n(22)),
        GridMark::new(n(30), n(35)),
    ];
    let texts = vec![String::from("10"), String::from("20"), String::from("30")];
    let sizes = vec![
        TextSize::new(n(12), n(8)),
        TextSize::new(n(12), n(8)),
        TextSize::new(n(12), n(9)),
    ];
    let (outs, thickness) = place_tick_labels(
        &t,
        Axis::X,
        Placement::LeftBottom,
        n(20),
        n(30),
        &strip,
        t.dpos_dvalue().0,
        &steps,
        &texts,
        &sizes,
    );
    assert_eq!(outs.len(), 3);
    // spacing 15 is at or below the hard cutoff of 20: fully suppressed
    assert!(!outs[0].shown);
    // spacing 22 fades in at strength 1/5
    assert!(outs[1].shown);
    assert!(outs[1].strength.same_value(PlotNum::rat(1, 5)));
    // spacing 35 is past the fade zone: full opacity
    assert!(outs[2].shown);
    assert!(outs[2].strength.same_value(n(1)));
    // thickness is the tallest shown label
    assert!(thickness.same_value(n(9)));
    // the shown labels are centered on their marks, flush to the strip top
    assert!(outs[1].pos.x.same_value(n(20 - 6)));
    assert!(outs[1].pos.y.same_value(n(100)));
}

#[test]
fn empty_text_suppresses_a_label() {
    let t = unit_scale_transform();
    let strip = ScreenRect::new(
        ScreenPoint::new(n(0), n(100)),
        ScreenPoint::new(n(100), n(120)),
    );
    let steps = vec![GridMark::new(n(10), n(50))];
    let texts = vec![String::new()];
    let sizes = vec![TextSize::new(n(10), n(8))];
    let (outs, thickness) = place_tick_labels(
        &t,
        Axis::X,
        Placement::LeftBottom,
        n(20),
        n(30),
        &strip,
        t.dpos_dvalue().0,
        &steps,
        &texts,
        &sizes,
    );
    assert!(!outs[0].shown);
    assert!(thickness.same_value(n(0)));
}

#[test]
fn oversized_text_is_suppressed_independently_of_spacing() {
    let t = unit_scale_transform();
    let strip = ScreenRect::new(
        ScreenPoint::new(n(0), n(100)),
        ScreenPoint::new(n(100), n(120)),
    );
    // spacing 40 passes the cutoff, but the text is 50 units wide
    let steps = vec![GridMark::new(n(10), n(40))];
    let texts = vec![String::from("3.1415926535")];
    let sizes = vec![TextSize::new(n(50), n(8))];
    let (outs, _) = place_tick_labels(
        &t,
        Axis::X,
        Placement::LeftBottom,
        n(20),
        n(30),
        &strip,
        t.dpos_dvalue().0,
        &steps,
        &texts,
        &sizes,
    );
    assert!(!outs[0].shown);
}

#[test]
fn y_axis_labels_align_to_the_configured_edge() {
    let t = unit_scale_transform();
    let strip = ScreenRect::new(
        ScreenPoint::new(n(0), n(0)),
        ScreenPoint::new(n(30), n(100)),
    );
    let steps = vec![GridMark::new(n(40), n(25))];
    let texts = vec![String::from("40")];
    let sizes = vec![TextSize::new(n(12), n(8))];
    let (outs, thickness) = place_tick_labels(
        &t,
        Axis::Y,
        Placement::LeftBottom,
        n(20),
        n(30),
        &strip,
        t.dpos_dvalue().1,
        &steps,
        &texts,
        &sizes,
    );
    assert!(outs[0].shown);
    // left placement: flush to the right edge of the strip
    assert!(outs[0].pos.x.same_value(n(30 - 12)));
    // value 40 maps to screen y 60 (inverted axis); centered on it
    assert!(outs[0].pos.y.same_value(n(60 - 4)));
    assert!(thickness.same_value(n(12)));
}

#[test]
fn widget_without_transform_draws_nothing() {
    let hints = AxisHints::new_x();
    let rect = ScreenRect::new(
        ScreenPoint::new(n(0), n(0)),
        ScreenPoint::new(n(100), n(20)),
    );
    let w = AxisWidget::new(hints, rect);
    let texts: Vec<String> = Vec::new();
    let sizes: Vec<TextSize> = Vec::new();
    let (outs, thickness) = w.add_tick_labels(Axis::X, &texts, &sizes);
    assert!(outs.is_empty());
    assert!(thickness.same_value(n(0)));
}

#[test]
fn hint_builders_set_their_fields() {
    let h = AxisHints::new_y()
        .label(String::from("speed"))
        .min_thickness(n(18))
        .placement(Placement::RightTop)
        .label_spacing((n(10), n(40)));
    assert_eq!(h.label, "speed");
    assert!(h.min_thickness.same_value(n(18)));
    assert_eq!(h.placement, Placement::RightTop);
    assert!(h.label_spacing.0.same_value(n(10)));
    assert!(h.label_spacing.1.same_value(n(40)));
    let d = AxisHints::new_x();
    assert!(d.label_spacing.0.same_value(n(60)));
    assert!(d.label_spacing.1.same_value(n(80)));
    assert!(AxisHints::new_y().label_spacing.0.same_value(n(20)));
    let digits = AxisHints::new_x().max_digits(5);
    assert!(digits.min_thickness.same_value(n(60)));
}

#[test]
fn title_adds_its_height_plus_a_quarter_gap() {
    let total = thickness_with_title(n(10), n(8));
    assert!(total.same_value(n(20)));
}

#[test]
fn title_is_centered_and_offset_by_its_height() {
    let strip = ScreenRect::new(
        ScreenPoint::new(n(0), n(100)),
        ScreenPoint::new(n(100), n(120)),
    );
    let size = TextSize::new(n(40), n(8));
    // below the strip: centered on x, a quarter-height gap under the edge
    let (pos, rotated) = title_position(Axis::X, Placement::LeftBottom, &strip, &size);
    assert!(!rotated);
    assert!(pos.x.same_value(n(50 - 20)));
    assert!(pos.y.same_value(n(120 - 10)));
    let (top, _) = title_position(Axis::X, Placement::RightTop, &strip, &size);
    assert!(top.y.same_value(n(100 + 2)));
    // the y-axis title is rotated, its width running along the y axis
    let ystrip = ScreenRect::new(
        ScreenPoint::new(n(0), n(0)),
        ScreenPoint::new(n(30), n(100)),
    );
    let (ypos, yrot) = title_position(Axis::Y, Placement::LeftBottom, &ystrip, &size);
    assert!(yrot);
    assert!(ypos.x.same_value(n(0 - 2)));
    assert!(ypos.y.same_value(n(50 + 20)));
}

#[test]
fn widget_with_transform_places_and_fades_labels() {
    let frame = ScreenRect::new(
        ScreenPoint::new(n(0), n(0)),
        ScreenPoint::new(n(100), n(100)),
    );
    let bounds = PlotBounds::from_min_max(
        PlotPoint::new(n(0), n(0)),
        PlotPoint::new(n(100), n(100)),
    );
    let t = PlotTransform::new(frame, bounds, AxisBools::new(false, false));
    let strip = ScreenRect::new(
        ScreenPoint::new(n(0), n(100)),
        ScreenPoint::new(n(100), n(120)),
    );
    let mut w = AxisWidget::new(AxisHints::new_x().label_spacing((n(20), n(30))), strip);
    w.transform = Some(t);
    w.steps = vec![GridMark::new(n(10), n(15)), GridMark::new(n(20), n(22))];
    let texts = vec![String::from("10"), String::from("20")];
    let sizes = vec![TextSize::new(n(12), n(8)), TextSize::new(n(12), n(8))];
    let (outs, thickness) = w.add_tick_labels(Axis::X, &texts, &sizes);
    assert!(!outs[0].shown);
    assert!(outs[1].shown);
    assert!(outs[1].strength.same_value(PlotNum::rat(1, 5)));
    assert!(thickness.same_value(n(8)));
}
