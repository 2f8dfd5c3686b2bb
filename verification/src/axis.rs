//! Axis selection and placement, axis configuration, and the tick/label
//! layout decisions for one axis strip.

use vstd::prelude::*;
use crate::geom::{ScreenPoint, ScreenRect};
use crate::scalar::{
    add_rel, div_rel, lemma_q_div_cong, lemma_q_eq_trans, lemma_q_op_bounds, lemma_q_ops_wf,
    lemma_q_sub_cong, lemma_q_sub_cong_r, mul_rel, n_abs, n_le, n_lt, n_max, q_add, q_bounded,
    q_eq, q_half, q_int, q_mul, q_remap, q_sub, q_wf, rep, sub_rel, PlotNum, Rat,
};
use crate::transform::{coords_bounded, q_dpos_x, q_dpos_y, q_pos_x, q_pos_y, PlotTransform};

verus! {

/// X or Y axis.
#[derive(Debug, Clone, Copy, PartialEq, Eq, Structural)]
pub enum Axis {
    /// Horizontal X-axis.
    X,
    /// Vertical Y-axis.
    Y,
}

impl From<Axis> for usize {
    fn from(value: Axis) -> (r: Self)
        ensures
            r == (match value {
                Axis::X => 0usize,
                Axis::Y => 1usize,
            }),
    {
        match value {
            Axis::X => 0,
            Axis::Y => 1,
        }
    }
}

impl vstd::std_specs::convert::FromSpecImpl<Axis> for usize {
    open spec fn obeys_from_spec() -> bool {
        true
    }

    open spec fn from_spec(value: Axis) -> Self {
        match value {
            Axis::X => 0usize,
            Axis::Y => 1usize,
        }
    }
}

/// Placement of the horizontal X-axis.
#[derive(Debug, Clone, Copy, PartialEq, Eq, Structural)]
pub enum VPlacement {
    Top,
    Bottom,
}

/// Placement of the vertical Y-axis.
#[derive(Debug, Clone, Copy, PartialEq, Eq, Structural)]
pub enum HPlacement {
    Left,
    Right,
}

/// Placement of an axis.
#[derive(Debug, Clone, Copy, PartialEq, Eq, Structural)]
pub enum Placement {
    /// Bottom for the X-axis, left for the Y-axis.
    LeftBottom,
    /// Top for the X-axis, right for the Y-axis.
    RightTop,
}

impl From<HPlacement> for Placement {
    fn from(placement: HPlacement) -> (r: Self)
        ensures
            r == (match placement {
                HPlacement::Left => Placement::LeftBottom,
                HPlacement::Right => Placement::RightTop,
            }),
    {
        match placement {
            HPlacement::Left => Self::LeftBottom,
            HPlacement::Right => Self::RightTop,
        }
    }
}

impl vstd::std_specs::convert::FromSpecImpl<HPlacement> for Placement {
    open spec fn obeys_from_spec() -> bool {
        true
    }

    open spec fn from_spec(placement: HPlacement) -> Self {
        match placement {
            HPlacement::Left => Placement::LeftBottom,
            HPlacement::Right => Placement::RightTop,
        }
    }
}

impl From<Placement> for HPlacement {
    fn from(placement: Placement) -> (r: Self)
        ensures
            r == (match placement {
                Placement::LeftBottom => HPlacement::Left,
                Placement::RightTop => HPlacement::Right,
            }),
    {
        match placement {
            Placement::LeftBottom => Self::Left,
            Placement::RightTop => Self::Right,
        }
    }
}

impl vstd::std_specs::convert::FromSpecImpl<Placement> for HPlacement {
    open spec fn obeys_from_spec() -> bool {
        true
    }

    open spec fn from_spec(placement: Placement) -> Self {
        match placement {
            Placement::LeftBottom => HPlacement::Left,
            Placement::RightTop => HPlacement::Right,
        }
    }
}

impl From<VPlacement> for Placement {
    fn from(placement: VPlacement) -> (r: Self)
        ensures
            r == (match placement {
                VPlacement::Top => Placement::RightTop,
                VPlacement::Bottom => Placement::LeftBottom,
            }),
    {
        match placement {
            VPlacement::Top => Self::RightTop,
            VPlacement::Bottom => Self::LeftBottom,
        }
    }
}

impl vstd::std_specs::convert::FromSpecImpl<VPlacement> for Placement {
    open spec fn obeys_from_spec() -> bool {
        true
    }

    open spec fn from_spec(placement: VPlacement) -> Self {
        match placement {
            VPlacement::Top => Placement::RightTop,
            VPlacement::Bottom => Placement::LeftBottom,
        }
    }
}

impl From<Placement> for VPlacement {
    fn from(placement: Placement) -> (r: Self)
        ensures
            r == (match placement {
                Placement::LeftBottom => VPlacement::Bottom,
                Placement::RightTop => VPlacement::Top,
            }),
    {
        match placement {
            Placement::LeftBottom => Self::Bottom,
            Placement::RightTop => Self::Top,
        }
    }
}

impl vstd::std_specs::convert::FromSpecImpl<Placement> for VPlacement {
    open spec fn obeys_from_spec() -> bool {
        true
    }

    open spec fn from_spec(placement: Placement) -> Self {
        match placement {
            Placement::LeftBottom => VPlacement::Bottom,
            Placement::RightTop => VPlacement::Top,
        }
    }
}

/// One candidate tick: a data-space value and the spacing to its
/// neighboring tick at the same density level.
#[derive(Clone, Copy, Debug)]
pub struct GridMark {
    pub value: PlotNum,
    pub step_size: PlotNum,
}

impl GridMark {
    /// Well-formedness of both fields.
    pub open spec fn wf(self) -> bool {
        self.value.wf() && self.step_size.wf()
    }

    /// A mark from its value and step size.
    pub fn new(value: PlotNum, step_size: PlotNum) -> (r: GridMark)
        requires
            value.wf(),
            step_size.wf(),
        ensures
            r == (GridMark { value, step_size }),
    {
        GridMark { value, step_size }
    }
}

/// The measured size of a formatted label, in screen units.
#[derive(Clone, Copy, Debug)]
pub struct TextSize {
    pub w: PlotNum,
    pub h: PlotNum,
}

impl TextSize {
    /// Well-formedness of both extents.
    pub open spec fn wf(self) -> bool {
        self.w.wf() && self.h.wf()
    }

    /// A size from its extents.
    pub fn new(w: PlotNum, h: PlotNum) -> (r: TextSize)
        requires
            w.wf(),
            h.wf(),
        ensures
            r == (TextSize { w, h }),
    {
        TextSize { w, h }
    }
}

/// The text extent along the tick axis (width on X, height on Y): the one
/// that must fit within the tick spacing.
pub open spec fn size_along_spec(axis: Axis, size: TextSize) -> PlotNum {
    if axis is X {
        size.w
    } else {
        size.h
    }
}

/// The text extent across the axis strip (height on X, width on Y): the
/// one that accumulates into the strip thickness.
pub open spec fn size_across_spec(axis: Axis, size: TextSize) -> PlotNum {
    if axis is X {
        size.h
    } else {
        size.w
    }
}

/// What the fade computation returns: zero at or below the lower spacing
/// bound, one at or above the upper bound, the exact linear ramp between.
pub open spec fn strength_rel(x: PlotNum, mn: PlotNum, mx: PlotNum, r: PlotNum) -> bool {
    if n_le(x, mn) {
        r == (PlotNum::Fin(Rat { num: 0i64, den: 1i64 }))
    } else if n_le(mx, x) {
        r == (PlotNum::Fin(Rat { num: 1i64, den: 1i64 }))
    } else {
        (x is Fin && mn is Fin && mx is Fin && r is Fin) ==> q_eq(
            rep(r),
            q_remap(rep(x), rep(mn), rep(mx), (0int, 1int), (1int, 1int)),
        )
    }
}

/// The exact fade strength of the spacing `x` for the fade zone
/// `[mn, mx]`: zero up to `mn`, one from `mx` on, the linear ramp between.
/// This is the value the finite cases of [`strength_rel`] stand for.
pub open spec fn q_strength(x: (int, int), mn: (int, int), mx: (int, int)) -> (int, int) {
    if crate::scalar::q_le(x, mn) {
        (0, 1)
    } else if crate::scalar::q_le(mx, x) {
        (1, 1)
    } else {
        q_remap(x, mn, mx, (0, 1), (1, 1))
    }
}

/// Label fade monotonicity: a label never gets dimmer as its on-screen
/// spacing grows.
pub proof fn lemma_fade_monotone(x1: (int, int), x2: (int, int), mn: (int, int), mx: (int, int))
    requires
        q_wf(x1),
        q_wf(x2),
        q_wf(mn),
        q_wf(mx),
        crate::scalar::q_lt(mn, mx),
        crate::scalar::q_le(x1, x2),
    ensures
        crate::scalar::q_le(q_strength(x1, mn, mx), q_strength(x2, mn, mx)),
{
    let zero_one = (0int, 1int);
    let one_one = (1int, 1int);
    let s1 = q_strength(x1, mn, mx);
    let s2 = q_strength(x2, mn, mx);
    assert(q_sub(mx, mn).0 > 0);
    assert(q_sub((1int, 1int), (0int, 1int)).0 > 0) by (nonlinear_arith);
    crate::scalar::lemma_q_remap_endpoints(mn, mx, zero_one, one_one);
    lemma_q_ops_wf(mx, mn);
    crate::scalar::lemma_q_remap_wf(x1, mn, mx, zero_one, one_one);
    crate::scalar::lemma_q_remap_wf(x2, mn, mx, zero_one, one_one);
    crate::scalar::lemma_q_remap_wf(mn, mn, mx, zero_one, one_one);
    crate::scalar::lemma_q_remap_wf(mx, mn, mx, zero_one, one_one);
    assert(crate::scalar::q_le((0int, 1int), (0int, 1int)) && crate::scalar::q_le(
        (0int, 1int),
        (1int, 1int),
    ) && crate::scalar::q_le((1int, 1int), (1int, 1int))) by (nonlinear_arith);
    if crate::scalar::q_le(x1, mn) {
        // the lower strength is zero, and every strength is at least zero
        if crate::scalar::q_le(x2, mn) {
            assert(crate::scalar::q_le(s1, s2));
        } else if crate::scalar::q_le(mx, x2) {
            assert(crate::scalar::q_le(s1, s2));
        } else {
            crate::scalar::lemma_q_remap_mono(mn, x2, mn, mx, zero_one, one_one);
            crate::scalar::lemma_q_lt_cong(
                q_remap(mn, mn, mx, zero_one, one_one),
                zero_one,
                q_remap(x2, mn, mx, zero_one, one_one),
                q_remap(x2, mn, mx, zero_one, one_one),
            );
            assert(crate::scalar::q_lt(mn, x2));
            assert(crate::scalar::q_lt(zero_one, q_remap(x2, mn, mx, zero_one, one_one)));
            assert(crate::scalar::q_le(s1, s2));
        }
    } else if crate::scalar::q_le(mx, x1) {
        // both strengths are one
        assert(crate::scalar::q_le(mx, x2) && !crate::scalar::q_le(x2, mn)) by (nonlinear_arith)
            requires
                q_wf(x1),
                q_wf(x2),
                q_wf(mn),
                q_wf(mx),
                crate::scalar::q_lt(mn, mx),
                crate::scalar::q_le(mx, x1),
                crate::scalar::q_le(x1, x2),
        ;
        assert(crate::scalar::q_le(s1, s2));
    } else {
        // the lower strength is on the ramp
        if crate::scalar::q_le(x2, mn) {
            assert(false) by (nonlinear_arith)
                requires
                    q_wf(x1),
                    q_wf(x2),
                    q_wf(mn),
                    crate::scalar::q_le(x1, x2),
                    crate::scalar::q_le(x2, mn),
                    !crate::scalar::q_le(x1, mn),
            ;
        } else if crate::scalar::q_le(mx, x2) {
            // the ramp stays below one
            crate::scalar::lemma_q_remap_mono(x1, mx, mn, mx, zero_one, one_one);
            crate::scalar::lemma_q_lt_cong(
                q_remap(x1, mn, mx, zero_one, one_one),
                q_remap(x1, mn, mx, zero_one, one_one),
                q_remap(mx, mn, mx, zero_one, one_one),
                one_one,
            );
            assert(crate::scalar::q_lt(x1, mx));
            assert(crate::scalar::q_le(s1, s2));
        } else {
            if crate::scalar::q_lt(x1, x2) {
                crate::scalar::lemma_q_remap_mono(x1, x2, mn, mx, zero_one, one_one);
                assert(crate::scalar::q_le(s1, s2));
            } else {
                assert(q_eq(x1, x2));
                crate::scalar::lemma_q_remap_cong_v(x1, x2, mn, mx, zero_one, one_one);
                crate::scalar::lemma_q_lt_cong(
                    q_remap(x1, mn, mx, zero_one, one_one),
                    q_remap(x2, mn, mx, zero_one, one_one),
                    q_remap(x2, mn, mx, zero_one, one_one),
                    q_remap(x2, mn, mx, zero_one, one_one),
                );
                assert(crate::scalar::q_le(s1, s2));
            }
        }
    }
}

/// The fade strength of a label whose on-screen spacing is `x`, for the
/// fade zone `[mn, mx]`: labels are invisible at spacing `mn` and fully
/// opaque at spacing `mx`.
pub fn fade_strength(x: PlotNum, mn: PlotNum, mx: PlotNum) -> (r: PlotNum)
    requires
        x.wf(),
        mn.wf(),
        mx.wf(),
    ensures
        r.wf(),
        strength_rel(x, mn, mx, r),
{
    if x.le(mn) {
        PlotNum::zero()
    } else if mx.le(x) {
        PlotNum::from_int(1)
    } else {
        crate::transform::remap_num(x, mn, mx, PlotNum::zero(), PlotNum::from_int(1))
    }
}

/// The views of a sequence of formatted label texts.
pub open spec fn texts_view(texts: Seq<String>) -> Seq<Seq<char>> {
    texts.map_values(|s: String| s@)
}

/// What the per-mark spacing computation returns: the absolute value of
/// the scale times the step size.
pub open spec fn abs_mul_rel(a: PlotNum, b: PlotNum, r: PlotNum) -> bool {
    exists|m: PlotNum| mul_rel(a, b, m) && m.wf() && r == n_abs(m)
}

/// One decided tick label, aligned with its grid mark.
#[derive(Clone, Copy, Debug)]
pub struct TickOutcome {
    /// The on-screen distance to the neighboring mark at this density.
    pub spacing: PlotNum,
    /// The fade strength of the label (0 hidden, 1 fully opaque).
    pub strength: PlotNum,
    /// Whether the label is drawn at all.
    pub shown: bool,
    /// The top-left screen position of the text, when shown.
    pub pos: ScreenPoint,
}

/// Everything that must hold of one mark's outcome: the spacing value,
/// the show decision (non-empty text, spacing above the hard cutoff, and
/// the text fitting into the spacing), the fade strength, and the screen
/// placement of the text.
pub open spec fn tick_outcome_ok(
    t: PlotTransform,
    axis: Axis,
    placement: Placement,
    smin: PlotNum,
    smax: PlotNum,
    rect: ScreenRect,
    dpos: PlotNum,
    mark: GridMark,
    text: Seq<char>,
    size: TextSize,
    o: TickOutcome,
) -> bool {
    &&& abs_mul_rel(dpos, mark.step_size, o.spacing)
    &&& (o.shown <==> (text.len() > 0 && !n_le(o.spacing, smin) && !n_lt(
        o.spacing,
        size_along_spec(axis, size),
    )))
    &&& strength_rel(o.spacing, smin, smax, o.strength)
    &&& (o.shown ==> tick_pos_ok(t, axis, placement, rect, mark, size, o.pos))
}

/// The screen placement of one shown label: centered on the mark's
/// projected position along the axis, flush against the configured edge
/// of the strip across it.
pub open spec fn tick_pos_ok(
    t: PlotTransform,
    axis: Axis,
    placement: Placement,
    rect: ScreenRect,
    mark: GridMark,
    size: TextSize,
    pos: ScreenPoint,
) -> bool {
    match axis {
        Axis::X => {
            &&& ((mark.value is Fin && pos.x is Fin) ==> q_eq(
                rep(pos.x),
                q_sub(q_pos_x(t, rep(mark.value)), q_half(rep(size.w))),
            ))
            &&& (placement is LeftBottom ==> pos.y == rect.min.y)
            &&& (placement is RightTop ==> sub_rel(rect.max.y, size.h, pos.y))
        },
        Axis::Y => {
            &&& ((mark.value is Fin && pos.y is Fin) ==> q_eq(
                rep(pos.y),
                q_sub(q_pos_y(t, rep(mark.value)), q_half(rep(size.h))),
            ))
            &&& (placement is LeftBottom ==> sub_rel(rect.max.x, size.w, pos.x))
            &&& (placement is RightTop ==> pos.x == rect.min.x)
        },
    }
}

/// The strip thickness consumed by the shown labels: the running maximum
/// of the across-axis text extents.
pub open spec fn thickness_spec(outs: Seq<TickOutcome>, sizes: Seq<TextSize>, axis: Axis) -> PlotNum
    decreases outs.len(),
{
    if outs.len() == 0 {
        PlotNum::Fin(Rat { num: 0i64, den: 1i64 })
    } else {
        let prev = thickness_spec(outs.drop_last(), sizes.drop_last(), axis);
        if outs.last().shown {
            n_max(prev, size_across_spec(axis, sizes.last()))
        } else {
            prev
        }
    }
}

/// Everything that must hold of a whole pass over the marks.
pub open spec fn ticks_ok(
    t: PlotTransform,
    axis: Axis,
    placement: Placement,
    smin: PlotNum,
    smax: PlotNum,
    rect: ScreenRect,
    dpos: PlotNum,
    marks: Seq<GridMark>,
    texts: Seq<Seq<char>>,
    sizes: Seq<TextSize>,
    outs: Seq<TickOutcome>,
    thickness: PlotNum,
) -> bool {
    &&& outs.len() == marks.len()
    &&& (forall|i: int|
        0 <= i < marks.len() ==> tick_outcome_ok(
            t,
            axis,
            placement,
            smin,
            smax,
            rect,
            dpos,
            marks[i],
            texts[i],
            sizes[i],
            #[trigger] outs[i],
        ))
    &&& thickness == thickness_spec(outs, sizes, axis)
}

/// Decide, place and fade the tick labels of one axis strip. `dpos` is
/// the screen-units-per-data-unit scale of the axis; `texts[i]` is the
/// formatted label of `steps[i]` (empty to suppress it) and `sizes[i]`
/// its measured size. Returns one outcome per mark and the consumed
/// thickness.
pub fn place_tick_labels(
    t: &PlotTransform,
    axis: Axis,
    placement: Placement,
    smin: PlotNum,
    smax: PlotNum,
    rect: &ScreenRect,
    dpos: PlotNum,
    steps: &Vec<GridMark>,
    texts: &Vec<String>,
    sizes: &Vec<TextSize>,
) -> (r: (Vec<TickOutcome>, PlotNum))
    requires
        t.wf(),
        rect.min.wf(),
        rect.max.wf(),
        dpos.wf(),
        smin.wf(),
        smax.wf(),
        steps.len() == texts.len(),
        steps.len() == sizes.len(),
        forall|i: int| 0 <= i < steps.len() ==> (#[trigger] steps[i]).wf(),
        forall|i: int| 0 <= i < sizes.len() ==> (#[trigger] sizes[i]).wf(),
    ensures
        r.1.wf(),
        forall|i: int| 0 <= i < r.0.len() ==> (#[trigger] r.0[i]).spacing.wf() && r.0[i].strength.wf()
            && r.0[i].pos.wf(),
        ticks_ok(
            *t,
            axis,
            placement,
            smin,
            smax,
            *rect,
            dpos,
            steps@,
            texts_view(texts@),
            sizes@,
            r.0@,
            r.1,
        ),
{
    let ghost textseq = texts_view(texts@);
    let mut out: Vec<TickOutcome> = Vec::new();
    let mut thickness = PlotNum::zero();
    let mut i: usize = 0;
    while i < steps.len()
        invariant
            t.wf(),
            rect.min.wf(),
            rect.max.wf(),
            dpos.wf(),
            smin.wf(),
            smax.wf(),
            steps.len() == texts.len(),
            steps.len() == sizes.len(),
            forall|k: int| 0 <= k < steps.len() ==> (#[trigger] steps[k]).wf(),
            forall|k: int| 0 <= k < sizes.len() ==> (#[trigger] sizes[k]).wf(),
            textseq == texts_view(texts@),
            i <= steps.len(),
            out.len() == i,
            thickness.wf(),
            forall|k: int| 0 <= k < out.len() ==> (#[trigger] out[k]).spacing.wf()
                && out[k].strength.wf() && out[k].pos.wf(),
            forall|k: int|
                0 <= k < i ==> tick_outcome_ok(
                    *t,
                    axis,
                    placement,
                    smin,
                    smax,
                    *rect,
                    dpos,
                    steps[k],
                    textseq[k],
                    sizes[k],
                    #[trigger] out[k],
                ),
            thickness == thickness_spec(out@, sizes@.subrange(0, i as int), axis),
        decreases steps.len() - i,
    {
        let mark = steps[i];
        let size = sizes[i];
        let m = dpos.mul_num(mark.step_size);
        let spacing = m.abs_num();
        proof {
            assert(mul_rel(dpos, mark.step_size, m) && m.wf() && spacing == n_abs(m));
            assert(abs_mul_rel(dpos, mark.step_size, spacing));
        }
        let empty = texts[i].as_str().is_empty();
        let cutoff = spacing.le(smin);
        let strength = fade_strength(spacing, smin, smax);
        let along = if matches!(axis, Axis::X) {
            size.w
        } else {
            size.h
        };
        let too_big = spacing.lt(along);
        let shown = !empty && !cutoff && !too_big;
        let pos = tick_position(t, axis, placement, rect, &mark, &size);
        let o = TickOutcome { spacing, strength, shown, pos };
        proof {
            assert(textseq[i as int] == texts@[i as int]@);
            assert(tick_outcome_ok(
                *t,
                axis,
                placement,
                smin,
                smax,
                *rect,
                dpos,
                steps[i as int],
                textseq[i as int],
                sizes[i as int],
                o,
            ));
        }
        let ghost prev_out = out@;
        let ghost prev_thickness = thickness;
        out.push(o);
        if shown {
            let across = if matches!(axis, Axis::X) {
                size.h
            } else {
                size.w
            };
            thickness = thickness.max_num(across);
        }
        proof {
            assert(out@.drop_last() =~= prev_out);
            assert(out@.last() == o);
            assert(sizes@.subrange(0, (i + 1) as int).drop_last() =~= sizes@.subrange(0, i as int));
            assert(sizes@.subrange(0, (i + 1) as int).last() == sizes@[i as int]);
            assert(thickness_spec(out@.drop_last(), sizes@.subrange(0, (i + 1) as int).drop_last(), axis)
                == prev_thickness);
            assert(thickness == thickness_spec(out@, sizes@.subrange(0, (i + 1) as int), axis));
        }
        i = i + 1;
    }
    proof {
        assert(sizes@.subrange(0, steps.len() as int) =~= sizes@);
    }
    (out, thickness)
}

/// The screen position of one tick label: centered on the projected mark
/// along the axis, flush to the configured edge across it.
fn tick_position(
    t: &PlotTransform,
    axis: Axis,
    placement: Placement,
    rect: &ScreenRect,
    mark: &GridMark,
    size: &TextSize,
) -> (pos: ScreenPoint)
    requires
        t.wf(),
        rect.min.wf(),
        rect.max.wf(),
        mark.wf(),
        size.wf(),
    ensures
        pos.wf(),
        tick_pos_ok(*t, axis, placement, *rect, *mark, *size, pos),
{
    let two = PlotNum::from_int(2);
    match axis {
        Axis::X => {
            let cx = t.position_from_point_x(mark.value);
            let half = size.w.div_num(two);
            let px = cx.sub_num(half);
            let py = match placement {
                Placement::LeftBottom => rect.min.y,
                Placement::RightTop => rect.max.y.sub_num(size.h),
            };
            proof {
                crate::transform::lemma_q_pos_wf(*t, rep(mark.value));
                lemma_center_on(mark.value, cx, half, size.w, px, q_pos_x(*t, rep(mark.value)));
            }
            ScreenPoint { x: px, y: py }
        },
        Axis::Y => {
            let cy = t.position_from_point_y(mark.value);
            let half = size.h.div_num(two);
            let py = cy.sub_num(half);
            let px = match placement {
                Placement::LeftBottom => rect.max.x.sub_num(size.w),
                Placement::RightTop => rect.min.x,
            };
            proof {
                crate::transform::lemma_q_pos_wf(*t, rep(mark.value));
                lemma_center_on(mark.value, cy, half, size.h, py, q_pos_y(*t, rep(mark.value)));
            }
            ScreenPoint { x: px, y: py }
        },
    }
}

/// Axis configuration: title text, reserved thickness, placement side and
/// the label fade zone. The tick formatter itself is a host callback (it
/// renders numbers to text) and stays outside this core; the layout takes
/// the formatted texts as input.
pub struct AxisHints {
    pub label: String,
    pub min_thickness: PlotNum,
    pub placement: Placement,
    pub label_spacing: (PlotNum, PlotNum),
}

impl AxisHints {
    /// Well-formedness of the numeric fields.
    pub open spec fn wf(self) -> bool {
        &&& self.min_thickness.wf()
        &&& self.label_spacing.0.wf()
        &&& self.label_spacing.1.wf()
    }

    /// The default configuration for the given axis: empty title,
    /// minimum thickness 14, near-edge placement, and a fade zone of
    /// `[60, 80]` on X (labels get wide) or `[20, 30]` on Y.
    pub fn new(axis: Axis) -> (r: AxisHints)
        ensures
            r.wf(),
            r.label@ =~= Seq::<char>::empty(),
            r.min_thickness == (PlotNum::Fin(Rat { num: 14i64, den: 1i64 })),
            r.placement == Placement::LeftBottom,
            axis is X ==> r.label_spacing == ((
                PlotNum::Fin(Rat { num: 60i64, den: 1i64 }),
                PlotNum::Fin(Rat { num: 80i64, den: 1i64 }),
            )),
            axis is Y ==> r.label_spacing == ((
                PlotNum::Fin(Rat { num: 20i64, den: 1i64 }),
                PlotNum::Fin(Rat { num: 30i64, den: 1i64 }),
            )),
    {
        AxisHints {
            label: String::new(),
            min_thickness: PlotNum::from_int(14),
            placement: Placement::LeftBottom,
            label_spacing: match axis {
                Axis::X => (PlotNum::from_int(60), PlotNum::from_int(80)),
                Axis::Y => (PlotNum::from_int(20), PlotNum::from_int(30)),
            },
        }
    }

    /// The default configuration for the X axis.
    pub fn new_x() -> (r: AxisHints)
        ensures
            r.wf(),
    {
        AxisHints::new(Axis::X)
    }

    /// The default configuration for the Y axis.
    pub fn new_y() -> (r: AxisHints)
        ensures
            r.wf(),
    {
        AxisHints::new(Axis::Y)
    }

    /// Set the axis title.
    pub fn label(self, label: String) -> (r: AxisHints)
        requires
            self.wf(),
        ensures
            r.wf(),
            r.label == label,
            r.min_thickness == self.min_thickness,
            r.placement == self.placement,
            r.label_spacing == self.label_spacing,
    {
        AxisHints { label, ..self }
    }

    /// Set the minimum thickness of the axis strip.
    pub fn min_thickness(self, min_thickness: PlotNum) -> (r: AxisHints)
        requires
            self.wf(),
            min_thickness.wf(),
        ensures
            r.wf(),
            r.min_thickness == min_thickness,
            r.label == self.label,
            r.placement == self.placement,
            r.label_spacing == self.label_spacing,
    {
        AxisHints { min_thickness, ..self }
    }

    /// Reserve room for the given number of digits: twelve screen units
    /// per digit.
    pub fn max_digits(self, digits: usize) -> (r: AxisHints)
        requires
            self.wf(),
            12 * (digits as int) <= i64::MAX as int,
        ensures
            r.wf(),
            r.min_thickness == (PlotNum::Fin(Rat { num: (12 * digits) as i64, den: 1i64 })),
            r.label == self.label,
            r.placement == self.placement,
            r.label_spacing == self.label_spacing,
    {
        self.min_thickness(PlotNum::from_int(12 * (digits as i64)))
    }

    /// Set the placement side of the axis.
    pub fn placement(self, placement: Placement) -> (r: AxisHints)
        requires
            self.wf(),
        ensures
            r.wf(),
            r.placement == placement,
            r.label == self.label,
            r.min_thickness == self.min_thickness,
            r.label_spacing == self.label_spacing,
    {
        AxisHints { placement, ..self }
    }

    /// Set the fade zone: labels closer together than the minimum become
    /// invisible, labels further apart than the maximum are fully opaque.
    pub fn label_spacing(self, range: (PlotNum, PlotNum)) -> (r: AxisHints)
        requires
            self.wf(),
            range.0.wf(),
            range.1.wf(),
        ensures
            r.wf(),
            r.label_spacing == range,
            r.label == self.label,
            r.min_thickness == self.min_thickness,
            r.placement == self.placement,
    {
        AxisHints { label_spacing: range, ..self }
    }
}

/// One axis strip: its configuration, the reserved screen rectangle, the
/// active transform (if a layout pass produced one) and the candidate
/// marks of the visible range.
pub struct AxisWidget {
    pub range: (PlotNum, PlotNum),
    pub hints: AxisHints,
    pub rect: ScreenRect,
    pub transform: Option<PlotTransform>,
    pub steps: Vec<GridMark>,
}

impl AxisWidget {
    /// Well-formedness of the strip.
    pub open spec fn wf(self) -> bool {
        &&& self.range.0.wf()
        &&& self.range.1.wf()
        &&& self.hints.wf()
        &&& self.rect.min.wf()
        &&& self.rect.max.wf()
        &&& (self.transform matches Some(tr) ==> tr.wf())
        &&& (forall|i: int| 0 <= i < self.steps.len() ==> (#[trigger] self.steps[i]).wf())
    }

    /// A fresh strip: no transform, no marks, a zero range.
    pub fn new(hints: AxisHints, rect: ScreenRect) -> (r: AxisWidget)
        requires
            hints.wf(),
            rect.min.wf(),
            rect.max.wf(),
        ensures
            r.wf(),
            r.hints == hints,
            r.rect == rect,
            r.transform is None,
            r.steps@ =~= Seq::<GridMark>::empty(),
            r.range == ((
                PlotNum::Fin(Rat { num: 0i64, den: 1i64 }),
                PlotNum::Fin(Rat { num: 0i64, den: 1i64 }),
            )),
    {
        AxisWidget {
            range: (PlotNum::zero(), PlotNum::zero()),
            hints,
            rect,
            transform: None,
            steps: Vec::new(),
        }
    }

    /// Decide, place and fade this strip's tick labels. `texts[i]` is the
    /// formatted label of `steps[i]` and `sizes[i]` its measured size.
    /// Without a transform the strip draws nothing and consumes no
    /// thickness.
    pub fn add_tick_labels(&self, axis: Axis, texts: &Vec<String>, sizes: &Vec<TextSize>) -> (r: (
        Vec<TickOutcome>,
        PlotNum,
    ))
        requires
            self.wf(),
            texts.len() == self.steps.len(),
            sizes.len() == self.steps.len(),
            forall|i: int| 0 <= i < sizes.len() ==> (#[trigger] sizes[i]).wf(),
        ensures
            r.1.wf(),
            self.transform is None ==> r.0.len() == 0 && r.1 == (PlotNum::Fin(
                Rat { num: 0i64, den: 1i64 },
            )),
            (self.transform matches Some(tr) ==> exists|dpos: PlotNum|
                {
                    &&& dpos.wf()
                    &&& (dpos is Fin || dpos is NotANum)
                    &&& (coords_bounded(tr, 0x100) ==> dpos is Fin)
                    &&& (dpos is Fin ==> q_eq(
                        rep(dpos),
                        if axis is X {
                            q_dpos_x(tr)
                        } else {
                            q_dpos_y(tr)
                        },
                    ))
                    &&& #[trigger] ticks_ok(
                        tr,
                        axis,
                        self.hints.placement,
                        self.hints.label_spacing.0,
                        self.hints.label_spacing.1,
                        self.rect,
                        dpos,
                        self.steps@,
                        texts_view(texts@),
                        sizes@,
                        r.0@,
                        r.1,
                    )
                }),
    {
        match &self.transform {
            Some(tr) => {
                let d = tr.dpos_dvalue();
                let dpos = if matches!(axis, Axis::X) {
                    d.0
                } else {
                    d.1
                };
                let r = place_tick_labels(
                    tr,
                    axis,
                    self.hints.placement,
                    self.hints.label_spacing.0,
                    self.hints.label_spacing.1,
                    &self.rect,
                    dpos,
                    &self.steps,
                    texts,
                    sizes,
                );
                r
            },
            None => (Vec::new(), PlotNum::zero()),
        }
    }
}

/// The total thickness of a strip whose tick labels consume
/// `tick_thickness` and whose title is `title_height` tall: the title adds
/// its own height plus a gap of a quarter of it.
pub fn thickness_with_title(tick_thickness: PlotNum, title_height: PlotNum) -> (r: PlotNum)
    requires
        tick_thickness.wf(),
        title_height.wf(),
    ensures
        r.wf(),
        (tick_thickness is Fin && title_height is Fin && r is Fin) ==> q_eq(
            rep(r),
            q_add(q_mul(rep(title_height), (5int, 4int)), rep(tick_thickness)),
        ),
        (tick_thickness is Fin && title_height is Fin && q_bounded(rep(tick_thickness), 0x1000_0000)
            && q_bounded(rep(title_height), 0x1000_0000)) ==> r is Fin,
{
    let m = title_height.mul_num(PlotNum::rat(5, 4));
    let r = m.add_num(tick_thickness);
    proof {
        if tick_thickness is Fin && title_height is Fin && q_bounded(rep(tick_thickness), 0x1000_0000)
            && q_bounded(rep(title_height), 0x1000_0000) {
            lemma_q_op_bounds(rep(title_height), (5int, 4int), 0x1000_0000, 5);
            assert(m is Fin);
            lemma_q_op_bounds(rep(m), rep(tick_thickness), 0x5000_0000, 0x1000_0000);
            assert(r is Fin);
        }
        if tick_thickness is Fin && title_height is Fin && r is Fin {
            assert(m is Fin);
            let qm = q_mul(rep(title_height), (5int, 4int));
            lemma_q_ops_wf(rep(title_height), (5int, 4int));
            lemma_q_ops_wf(rep(m), rep(tick_thickness));
            lemma_q_ops_wf(qm, rep(tick_thickness));
            crate::scalar::lemma_q_add_cong(rep(m), qm, rep(tick_thickness));
            lemma_q_eq_trans(
                rep(r),
                q_add(rep(m), rep(tick_thickness)),
                q_add(qm, rep(tick_thickness)),
            );
        }
    }
    r
}

/// A coordinate offset from `base` by `frac` times `ext`, outward
/// (subtracted) or inward (added).
pub open spec fn scaled_offset_rel(
    base: PlotNum,
    ext: PlotNum,
    frac: PlotNum,
    outward: bool,
    p: PlotNum,
) -> bool {
    exists|m: PlotNum|
        #![trigger mul_rel(ext, frac, m)]
        {
            &&& m.wf()
            &&& mul_rel(ext, frac, m)
            &&& (if outward {
                sub_rel(base, m, p)
            } else {
                add_rel(base, m, p)
            })
        }
}

/// A coordinate centered between `lo` and `hi`, backed off (or advanced)
/// by half the text extent `ext`.
pub open spec fn centered_text_rel(
    lo: PlotNum,
    hi: PlotNum,
    ext: PlotNum,
    forward: bool,
    p: PlotNum,
) -> bool {
    exists|c: PlotNum, h: PlotNum|
        #![trigger crate::bounds::mid_rel(lo, hi, c), div_rel(ext, PlotNum::Fin(Rat { num: 2i64, den: 1i64 }), h)]
        {
            &&& c.wf()
            &&& h.wf()
            &&& crate::bounds::mid_rel(lo, hi, c)
            &&& div_rel(ext, PlotNum::Fin(Rat { num: 2i64, den: 1i64 }), h)
            &&& (if forward {
                add_rel(c, h, p)
            } else {
                sub_rel(c, h, p)
            })
        }
}

/// Where the axis title goes, relative to the strip rectangle and the
/// measured title size: centered along the axis, offset from the strip
/// edge by fractions of the title's own height (a quarter-height gap
/// beyond the tick labels). The y-axis title is drawn rotated a quarter
/// turn, so its width runs along the y axis.
pub open spec fn title_pos_ok(
    axis: Axis,
    placement: Placement,
    rect: ScreenRect,
    size: TextSize,
    pos: ScreenPoint,
) -> bool {
    match axis {
        Axis::X => {
            &&& centered_text_rel(rect.min.x, rect.max.x, size.w, false, pos.x)
            &&& (placement is LeftBottom ==> scaled_offset_rel(
                rect.max.y,
                size.h,
                PlotNum::Fin(Rat { num: 5i64, den: 4i64 }),
                true,
                pos.y,
            ))
            &&& (placement is RightTop ==> scaled_offset_rel(
                rect.min.y,
                size.h,
                PlotNum::Fin(Rat { num: 1i64, den: 4i64 }),
                false,
                pos.y,
            ))
        },
        Axis::Y => {
            &&& centered_text_rel(rect.min.y, rect.max.y, size.w, true, pos.y)
            &&& (placement is LeftBottom ==> scaled_offset_rel(
                rect.min.x,
                size.h,
                PlotNum::Fin(Rat { num: 1i64, den: 4i64 }),
                true,
                pos.x,
            ))
            &&& (placement is RightTop ==> scaled_offset_rel(
                rect.max.x,
                size.h,
                PlotNum::Fin(Rat { num: 3i64, den: 4i64 }),
                true,
                pos.x,
            ))
        },
    }
}

/// The screen position of the axis title for the given strip rectangle
/// and measured title size, and whether the title is drawn rotated a
/// quarter turn (true on the y axis).
pub fn title_position(axis: Axis, placement: Placement, rect: &ScreenRect, size: &TextSize) -> (r:
    (ScreenPoint, bool))
    requires
        rect.min.wf(),
        rect.max.wf(),
        size.wf(),
    ensures
        r.0.wf(),
        title_pos_ok(axis, placement, *rect, *size, r.0),
        r.1 == (axis is Y),
{
    let two = PlotNum::from_int(2);
    match axis {
        Axis::X => {
            let c = crate::bounds::midpoint(rect.min.x, rect.max.x);
            let h = size.w.div_num(two);
            let px = c.sub_num(h);
            proof {
                assert(centered_text_rel(rect.min.x, rect.max.x, size.w, false, px));
            }
            let py = match placement {
                Placement::LeftBottom => {
                    let m = size.h.mul_num(PlotNum::rat(5, 4));
                    let v = rect.max.y.sub_num(m);
                    proof {
                        assert(scaled_offset_rel(
                            rect.max.y,
                            size.h,
                            PlotNum::Fin(Rat { num: 5i64, den: 4i64 }),
                            true,
                            v,
                        ));
                    }
                    v
                },
                Placement::RightTop => {
                    let m = size.h.mul_num(PlotNum::rat(1, 4));
                    let v = rect.min.y.add_num(m);
                    proof {
                        assert(scaled_offset_rel(
                            rect.min.y,
                            size.h,
                            PlotNum::Fin(Rat { num: 1i64, den: 4i64 }),
                            false,
                            v,
                        ));
                    }
                    v
                },
            };
            (ScreenPoint { x: px, y: py }, false)
        },
        Axis::Y => {
            let c = crate::bounds::midpoint(rect.min.y, rect.max.y);
            let h = size.w.div_num(two);
            let py = c.add_num(h);
            proof {
                assert(centered_text_rel(rect.min.y, rect.max.y, size.w, true, py));
            }
            let px = match placement {
                Placement::LeftBottom => {
                    let m = size.h.mul_num(PlotNum::rat(1, 4));
                    let v = rect.min.x.sub_num(m);
                    proof {
                        assert(scaled_offset_rel(
                            rect.min.x,
                            size.h,
                            PlotNum::Fin(Rat { num: 1i64, den: 4i64 }),
                            true,
                            v,
                        ));
                    }
                    v
                },
                Placement::RightTop => {
                    let m = size.h.mul_num(PlotNum::rat(3, 4));
                    let v = rect.max.x.sub_num(m);
                    proof {
                        assert(scaled_offset_rel(
                            rect.max.x,
                            size.h,
                            PlotNum::Fin(Rat { num: 3i64, den: 4i64 }),
                            true,
                            v,
                        ));
                    }
                    v
                },
            };
            (ScreenPoint { x: px, y: py }, true)
        },
    }
}

/// Centering a text of extent `ext` on the projected coordinate `c`
/// stands for the projected value minus half the extent.
proof fn lemma_center_on(
    value: PlotNum,
    c: PlotNum,
    half: PlotNum,
    ext: PlotNum,
    p: PlotNum,
    target: (int, int),
)
    requires
        value.wf(),
        c.wf(),
        half.wf(),
        ext.wf(),
        p.wf(),
        crate::scalar::div_rel(ext, PlotNum::Fin(Rat { num: 2i64, den: 1i64 }), half),
        sub_rel(c, half, p),
        (value is Fin && c is Fin) ==> q_eq(rep(c), target),
        q_wf(target),
    ensures
        (value is Fin && p is Fin) ==> q_eq(rep(p), q_sub(target, q_half(rep(ext)))),
{
    if value is Fin && p is Fin {
        assert(c is Fin && half is Fin && ext is Fin);
        let rc = rep(c);
        let rh = rep(half);
        let re = rep(ext);
        lemma_q_ops_wf(re, q_int(2));
        assert(q_eq(rh, q_half(re)));
        lemma_q_ops_wf(rc, rh);
        lemma_q_ops_wf(rc, q_half(re));
        lemma_q_ops_wf(target, q_half(re));
        lemma_q_sub_cong_r(rc, rh, q_half(re));
        lemma_q_sub_cong(rc, target, q_half(re));
        lemma_q_eq_trans(rep(p), q_sub(rc, rh), q_sub(rc, q_half(re)));
        lemma_q_eq_trans(rep(p), q_sub(rc, q_half(re)), q_sub(target, q_half(re)));
    }
}

} // verus!
