//! The bounds/transform engine: the bidirectional mapping between a data
//! window and a screen rectangle, with pan, zoom and aspect enforcement.

use vstd::prelude::*;
use crate::axis::Axis;
use crate::bounds::{mid_rel, span_rel, PlotBounds};
use crate::geom::{AxisBools, PlotPoint, ScreenPoint, ScreenRect};
use crate::scalar::{
    div_rel, lemma_q_abs_cong, lemma_q_absmax_pos, lemma_q_add_cong, lemma_q_add_cong_r,
    lemma_q_div_cong, lemma_q_div_cong_divisor, lemma_q_eq_trans, lemma_q_eq_zero,
    lemma_q_lt_cong, lemma_q_mul_cong, lemma_q_mul_cong_r, lemma_q_neg_cong, lemma_q_neg_lt,
    lemma_q_op_bounds, lemma_q_ops_wf, lemma_q_sub_cong, lemma_q_sub_cong_r, mul_rel, n_abs,
    n_lt, n_max, n_min, n_neg, q_abs, q_absmax, q_add, q_bounded, q_div, q_eq, q_half, q_int, q_le,
    q_lt, q_mul, q_neg, q_remap, q_sub, q_wf, ratv, rep, sub_rel, PlotNum, Rat,
};

verus! {

/// A coordinate is modest: small numerator and denominator, so that the
/// sanitizing arithmetic stays representable.
pub open spec fn modest_coord(a: PlotNum) -> bool {
    a matches PlotNum::Fin(q) ==> q_bounded(ratv(q), 0x4000)
}

/// All four bounds coordinates are modest.
pub open spec fn modest_bounds(b: PlotBounds) -> bool {
    &&& modest_coord(b.min_x)
    &&& modest_coord(b.min_y)
    &&& modest_coord(b.max_x)
    &&& modest_coord(b.max_y)
}

/// All eight coordinates of the transform (bounds and frame) are bounded
/// by `m`: the budget under which the mapping arithmetic is guaranteed to
/// stay representable.
pub open spec fn coords_bounded(t: PlotTransform, m: int) -> bool {
    &&& q_bounded(rep(t.bounds.min_x), m)
    &&& q_bounded(rep(t.bounds.max_x), m)
    &&& q_bounded(rep(t.bounds.min_y), m)
    &&& q_bounded(rep(t.bounds.max_y), m)
    &&& q_bounded(rep(t.frame.min.x), m)
    &&& q_bounded(rep(t.frame.max.x), m)
    &&& q_bounded(rep(t.frame.min.y), m)
    &&& q_bounded(rep(t.frame.max.y), m)
}

/// The midpoint of two pairs.
pub open spec fn q_mid(a: (int, int), b: (int, int)) -> (int, int) {
    crate::bounds::q_mid(a, b)
}

/// The sanitized x range of `b` as exact pairs: a unit interval for a
/// non-finite axis; for an empty or inverted axis, an interval around the
/// original midpoint whose width is borrowed from a valid y axis (else 2);
/// otherwise the range unchanged.
pub open spec fn sane_x(b: PlotBounds) -> ((int, int), (int, int)) {
    if !b.finite_x() {
        ((-1, 1), (1, 1))
    } else if !q_lt(rep(b.min_x), rep(b.max_x)) {
        let c = q_mid(rep(b.min_x), rep(b.max_x));
        let w = if b.valid_y_spec() {
            q_sub(rep(b.max_y), rep(b.min_y))
        } else {
            (2, 1)
        };
        (q_sub(c, q_half(w)), q_add(c, q_half(w)))
    } else {
        (rep(b.min_x), rep(b.max_x))
    }
}

/// The sanitized y range of `b`, borrowing from a valid x axis.
pub open spec fn sane_y(b: PlotBounds) -> ((int, int), (int, int)) {
    if !b.finite_y() {
        ((-1, 1), (1, 1))
    } else if !q_lt(rep(b.min_y), rep(b.max_y)) {
        let c = q_mid(rep(b.min_y), rep(b.max_y));
        let w = if b.valid_x_spec() {
            q_sub(rep(b.max_x), rep(b.min_x))
        } else {
            (2, 1)
        };
        (q_sub(c, q_half(w)), q_add(c, q_half(w)))
    } else {
        (rep(b.min_y), rep(b.max_y))
    }
}

/// An interval made symmetric about zero, keeping the larger absolute
/// endpoint.
pub open spec fn centered_pair(p: ((int, int), (int, int))) -> ((int, int), (int, int)) {
    (q_neg(q_absmax(p.0, p.1)), q_absmax(p.0, p.1))
}

/// The x range that construction must produce for `b`.
pub open spec fn target_x(b: PlotBounds, center_axis: AxisBools) -> ((int, int), (int, int)) {
    if center_axis.x {
        centered_pair(sane_x(b))
    } else {
        sane_x(b)
    }
}

/// The y range that construction must produce for `b`.
pub open spec fn target_y(b: PlotBounds, center_axis: AxisBools) -> ((int, int), (int, int)) {
    if center_axis.y {
        centered_pair(sane_y(b))
    } else {
        sane_y(b)
    }
}

/// The screen rectangle, the sanitized plot bounds, and the mapping
/// between them.
#[derive(Clone, Copy, Debug)]
pub struct PlotTransform {
    /// The screen rectangle.
    pub frame: ScreenRect,
    /// The plot bounds; always valid.
    pub bounds: PlotBounds,
    /// Whether to keep each axis centered on zero.
    pub centered: AxisBools,
}

/// The exact screen x position of the data value `v`.
pub open spec fn q_pos_x(t: PlotTransform, v: (int, int)) -> (int, int) {
    q_remap(v, rep(t.bounds.min_x), rep(t.bounds.max_x), rep(t.frame.min.x), rep(t.frame.max.x))
}

/// The exact screen y position of the data value `v` (the y axis is
/// inverted: larger data values map toward the top of the screen).
pub open spec fn q_pos_y(t: PlotTransform, v: (int, int)) -> (int, int) {
    q_remap(v, rep(t.bounds.min_y), rep(t.bounds.max_y), rep(t.frame.max.y), rep(t.frame.min.y))
}

/// The exact data value at the screen x position `p`.
pub open spec fn q_val_x(t: PlotTransform, p: (int, int)) -> (int, int) {
    q_remap(p, rep(t.frame.min.x), rep(t.frame.max.x), rep(t.bounds.min_x), rep(t.bounds.max_x))
}

/// The exact data value at the screen y position `p`.
pub open spec fn q_val_y(t: PlotTransform, p: (int, int)) -> (int, int) {
    q_remap(p, rep(t.frame.max.y), rep(t.frame.min.y), rep(t.bounds.min_y), rep(t.bounds.max_y))
}

/// The exact screen-units-per-data-unit ratio of the x axis.
pub open spec fn q_dpos_x(t: PlotTransform) -> (int, int) {
    q_div(q_sub(rep(t.frame.max.x), rep(t.frame.min.x)), q_sub(rep(t.bounds.max_x), rep(t.bounds.min_x)))
}

/// The exact screen-units-per-data-unit ratio of the y axis (negative:
/// the y axis is inverted).
pub open spec fn q_dpos_y(t: PlotTransform) -> (int, int) {
    q_div(q_neg(q_sub(rep(t.frame.max.y), rep(t.frame.min.y))), q_sub(rep(t.bounds.max_y), rep(t.bounds.min_y)))
}

/// The linear remap of `v` from `[a, b]` to `[c, d]`, exact whenever the
/// result is finite.
pub(crate) fn remap_num(v: PlotNum, a: PlotNum, b: PlotNum, c: PlotNum, d: PlotNum) -> (r: PlotNum)
    requires
        v.wf(),
        a.wf(),
        b.wf(),
        c.wf(),
        d.wf(),
    ensures
        r.wf(),
        (v is Fin && a is Fin && b is Fin && c is Fin && d is Fin && r is Fin) ==> q_eq(
            rep(r),
            q_remap(rep(v), rep(a), rep(b), rep(c), rep(d)),
        ),
        (v is Fin && a is Fin && b is Fin && c is Fin && d is Fin && q_bounded(rep(v), 0x100)
            && q_bounded(rep(a), 0x100) && q_bounded(rep(b), 0x100) && q_bounded(rep(c), 0x100)
            && q_bounded(rep(d), 0x100) && q_sub(rep(b), rep(a)).0 != 0) ==> r is Fin,
{
    let w = b.sub_num(a);
    let s1 = v.sub_num(a);
    let t = s1.div_num(w);
    let span = d.sub_num(c);
    let m = t.mul_num(span);
    let r = m.add_num(c);
    proof {
        if v is Fin && a is Fin && b is Fin && c is Fin && d is Fin && q_bounded(rep(v), 0x100)
            && q_bounded(rep(a), 0x100) && q_bounded(rep(b), 0x100) && q_bounded(rep(c), 0x100)
            && q_bounded(rep(d), 0x100) && q_sub(rep(b), rep(a)).0 != 0 {
            lemma_q_ops_wf(rep(b), rep(a));
            lemma_q_ops_wf(rep(v), rep(a));
            lemma_q_ops_wf(rep(d), rep(c));
            lemma_q_op_bounds(rep(b), rep(a), 0x100, 0x100);
            assert(w is Fin);
            lemma_q_eq_zero(rep(w), q_sub(rep(b), rep(a)));
            assert(rep(w).0 != 0);
            lemma_q_op_bounds(rep(v), rep(a), 0x100, 0x100);
            assert(s1 is Fin);
            lemma_q_op_bounds(rep(s1), rep(w), 0x20000, 0x20000);
            assert(t is Fin);
            lemma_q_op_bounds(rep(d), rep(c), 0x100, 0x100);
            assert(span is Fin);
            lemma_q_op_bounds(rep(t), rep(span), 0x4_0000_0000, 0x20000);
            assert(m is Fin);
            lemma_q_op_bounds(rep(m), rep(c), 0x8_0000_0000_0000, 0x100);
            assert(r is Fin);
        }
        if v is Fin && a is Fin && b is Fin && c is Fin && d is Fin && r is Fin {
            let rv = rep(v);
            let ra = rep(a);
            let rb = rep(b);
            let rc = rep(c);
            let rd = rep(d);
            assert(m is Fin);
            assert(t is Fin && span is Fin);
            assert(s1 is Fin && w is Fin);
            let rw = rep(w);
            assert(rw.0 != 0);
            lemma_q_ops_wf(rb, ra);
            lemma_q_ops_wf(rv, ra);
            lemma_q_ops_wf(rd, rc);
            // the exact width is nonzero together with its representation
            lemma_q_eq_zero(rw, q_sub(rb, ra));
            assert(q_sub(rb, ra).0 != 0);
            // t stands for (v - a) / (b - a)
            let qt = q_div(q_sub(rv, ra), q_sub(rb, ra));
            lemma_q_ops_wf(rep(s1), rw);
            lemma_q_ops_wf(q_sub(rv, ra), rw);
            lemma_q_ops_wf(q_sub(rv, ra), q_sub(rb, ra));
            lemma_q_div_cong(rep(s1), q_sub(rv, ra), rw);
            lemma_q_div_cong_divisor(q_sub(rv, ra), rw, q_sub(rb, ra));
            lemma_q_eq_trans(rep(t), q_div(rep(s1), rw), q_div(q_sub(rv, ra), rw));
            lemma_q_eq_trans(rep(t), q_div(q_sub(rv, ra), rw), qt);
            // m stands for t * (d - c)
            let qm = q_mul(qt, q_sub(rd, rc));
            lemma_q_ops_wf(rep(t), rep(span));
            lemma_q_ops_wf(qt, rep(span));
            lemma_q_ops_wf(qt, q_sub(rd, rc));
            lemma_q_mul_cong(rep(t), qt, rep(span));
            lemma_q_mul_cong_r(qt, rep(span), q_sub(rd, rc));
            lemma_q_eq_trans(rep(m), q_mul(rep(t), rep(span)), q_mul(qt, rep(span)));
            lemma_q_eq_trans(rep(m), q_mul(qt, rep(span)), qm);
            // r stands for m + c
            lemma_q_ops_wf(rep(m), rc);
            lemma_q_ops_wf(qm, rc);
            lemma_q_add_cong(rep(m), qm, rc);
            lemma_q_eq_trans(rep(r), q_add(rep(m), rc), q_add(qm, rc));
        }
    }
    r
}

/// The exact aspect ratio of the transform:
/// `(bounds.width / frame.width) / (bounds.height / frame.height)`.
pub open spec fn q_aspect(t: PlotTransform) -> (int, int) {
    q_div(
        q_div(
            q_sub(rep(t.bounds.max_x), rep(t.bounds.min_x)),
            q_sub(rep(t.frame.max.x), rep(t.frame.min.x)),
        ),
        q_div(
            q_sub(rep(t.bounds.max_y), rep(t.bounds.min_y)),
            q_sub(rep(t.frame.max.y), rep(t.frame.min.y)),
        ),
    )
}

/// Everything the aspect computation guarantees: exact whenever the
/// result is finite and the frame has nonzero extents.
pub open spec fn aspect_val_rel(t: PlotTransform, r: PlotNum) -> bool {
    &&& r.wf()
    &&& ((r is Fin && q_sub(rep(t.frame.max.x), rep(t.frame.min.x)).0 != 0 && q_sub(
        rep(t.frame.max.y),
        rep(t.frame.min.y),
    ).0 != 0) ==> q_eq(rep(r), q_aspect(t)))
}

/// What the aspect correction pad is: `(num_a / den_a - 1)` times the
/// chosen axis extent of the bounds, halved.
pub open spec fn aspect_pad_rel(
    t: PlotTransform,
    num_a: PlotNum,
    den_a: PlotNum,
    horizontal: bool,
    pad: PlotNum,
) -> bool {
    exists|q: PlotNum, sgap: PlotNum, ext: PlotNum, m1: PlotNum|
        #![trigger div_rel(num_a, den_a, q), sub_rel(q, PlotNum::Fin(Rat { num: 1i64, den: 1i64 }), sgap), mul_rel(sgap, ext, m1)]
        {
            &&& q.wf()
            &&& sgap.wf()
            &&& ext.wf()
            &&& m1.wf()
            &&& div_rel(num_a, den_a, q)
            &&& sub_rel(q, PlotNum::Fin(Rat { num: 1i64, den: 1i64 }), sgap)
            &&& sub_rel(
                if horizontal {
                    t.bounds.max_x
                } else {
                    t.bounds.max_y
                },
                if horizontal {
                    t.bounds.min_x
                } else {
                    t.bounds.min_y
                },
                ext,
            )
            &&& mul_rel(sgap, ext, m1)
            &&& mul_rel(m1, PlotNum::Fin(Rat { num: 1i64, den: 2i64 }), pad)
        }
}

/// Everything the forward mapping of a point guarantees: exactness of any
/// finite coordinate, and a finite result for coordinates within the
/// representability budget.
pub open spec fn pos_point_rel(t: PlotTransform, v: PlotPoint, p: ScreenPoint) -> bool {
    &&& p.wf()
    &&& ((v.x is Fin && p.x is Fin) ==> q_eq(rep(p.x), q_pos_x(t, rep(v.x))))
    &&& ((v.y is Fin && p.y is Fin) ==> q_eq(rep(p.y), q_pos_y(t, rep(v.y))))
    &&& ((coords_bounded(t, 0x100) && v.x is Fin && q_bounded(rep(v.x), 0x100)) ==> p.x is Fin)
    &&& ((coords_bounded(t, 0x100) && v.y is Fin && q_bounded(rep(v.y), 0x100)) ==> p.y is Fin)
}

/// Everything the inverse mapping of a position guarantees: exactness of
/// any finite coordinate, and a finite result for coordinates within the
/// representability budget when the frame has nonzero extent on that
/// axis.
pub open spec fn val_point_rel(t: PlotTransform, p: ScreenPoint, v: PlotPoint) -> bool {
    &&& v.wf()
    &&& ((p.x is Fin && v.x is Fin) ==> q_eq(rep(v.x), q_val_x(t, rep(p.x))))
    &&& ((p.y is Fin && v.y is Fin) ==> q_eq(rep(v.y), q_val_y(t, rep(p.y))))
    &&& ((coords_bounded(t, 0x100) && p.x is Fin && q_bounded(rep(p.x), 0x100) && q_sub(
        rep(t.frame.max.x),
        rep(t.frame.min.x),
    ).0 != 0) ==> v.x is Fin)
    &&& ((coords_bounded(t, 0x100) && p.y is Fin && q_bounded(rep(p.y), 0x100) && q_sub(
        rep(t.frame.min.y),
        rep(t.frame.max.y),
    ).0 != 0) ==> v.y is Fin)
}

/// Everything the reciprocal scale of one axis guarantees: exact when
/// finite, and finite for bounded coordinates and a frame of nonzero
/// extent on that axis.
pub open spec fn recip_scale_rel(t: PlotTransform, horizontal: bool, dv: PlotNum) -> bool {
    &&& dv.wf()
    &&& (dv is Fin ==> q_eq(
        rep(dv),
        q_div(
            q_int(1),
            if horizontal {
                q_dpos_x(t)
            } else {
                q_dpos_y(t)
            },
        ),
    ))
    &&& ((coords_bounded(t, 0x100) && (if horizontal {
        q_sub(rep(t.frame.max.x), rep(t.frame.min.x)).0 != 0
    } else {
        q_sub(rep(t.frame.max.y), rep(t.frame.min.y)).0 != 0
    })) ==> dv is Fin)
}

impl PlotTransform {
    /// Well-formedness: a well-formed frame and valid bounds.
    pub open spec fn wf(self) -> bool {
        &&& self.frame.wf()
        &&& self.bounds.wf()
        &&& self.bounds.valid_spec()
    }

    /// Construct a transform over `frame` from possibly degenerate
    /// `bounds`, sanitizing each axis independently, then centering the
    /// requested axes on zero. The stored bounds are always valid, and
    /// each axis is exactly its sanitized (and possibly centered) range --
    /// unless that range's endpoints cannot be represented within 64
    /// bits, in which case the axis falls back to the unit interval. A
    /// valid axis passes through untouched when not centered.
    pub fn new(frame: ScreenRect, bounds: PlotBounds, center_axis: AxisBools) -> (r: PlotTransform)
        requires
            frame.wf(),
            bounds.wf(),
        ensures
            r.wf(),
            r.frame == frame,
            r.centered == center_axis,
            r.bounds.valid_spec(),
            (bounds.valid_spec() && !center_axis.x && !center_axis.y) ==> r.bounds == bounds,
            (bounds.valid_x_spec() && !center_axis.x) ==> (r.bounds.min_x == bounds.min_x
                && r.bounds.max_x == bounds.max_x),
            (bounds.valid_y_spec() && !center_axis.y) ==> (r.bounds.min_y == bounds.min_y
                && r.bounds.max_y == bounds.max_y),
            ({
                ||| (r.bounds.min_x is Fin && r.bounds.max_x is Fin && q_eq(
                    rep(r.bounds.min_x),
                    target_x(bounds, center_axis).0,
                ) && q_eq(rep(r.bounds.max_x), target_x(bounds, center_axis).1))
                ||| (r.bounds.min_x == PlotNum::Fin(Rat { num: -1i64, den: 1i64 })
                    && r.bounds.max_x == PlotNum::Fin(Rat { num: 1i64, den: 1i64 }))
            }),
            ({
                ||| (r.bounds.min_y is Fin && r.bounds.max_y is Fin && q_eq(
                    rep(r.bounds.min_y),
                    target_y(bounds, center_axis).0,
                ) && q_eq(rep(r.bounds.max_y), target_y(bounds, center_axis).1))
                ||| (r.bounds.min_y == PlotNum::Fin(Rat { num: -1i64, den: 1i64 })
                    && r.bounds.max_y == PlotNum::Fin(Rat { num: 1i64, den: 1i64 }))
            }),
            modest_bounds(bounds) ==> {
                &&& r.bounds.min_x is Fin && q_eq(rep(r.bounds.min_x), target_x(bounds, center_axis).0)
                &&& r.bounds.max_x is Fin && q_eq(rep(r.bounds.max_x), target_x(bounds, center_axis).1)
                &&& r.bounds.min_y is Fin && q_eq(rep(r.bounds.min_y), target_y(bounds, center_axis).0)
                &&& r.bounds.max_y is Fin && q_eq(rep(r.bounds.max_y), target_y(bounds, center_axis).1)
            },
    {
        let unit = PlotBounds::new_symmetrical(PlotNum::from_int(1));
        let mut nb = bounds;

        // Sanitize the x axis.
        if !bounds.is_finite_x() {
            nb.set_x(&unit);
        } else if !bounds.min_x.lt(bounds.max_x) {
            let c = bounds.center();
            let w = if bounds.is_valid_y() {
                bounds.height()
            } else {
                PlotNum::from_int(2)
            };
            nb.set_x_center_width(c.x, w);
            proof {
                lemma_sanitized_axis(
                    bounds.min_x,
                    bounds.max_x,
                    bounds.min_y,
                    bounds.max_y,
                    bounds.valid_y_spec(),
                    c.x,
                    w,
                    nb.min_x,
                    nb.max_x,
                    modest_bounds(bounds),
                );
            }
        }
        proof {
            assert((-1int) * 1int < 1int * 1int) by (nonlinear_arith);
        }
        // An axis whose sanitized endpoints were not representable falls
        // back to the unit interval.
        if !nb.is_valid_x() {
            nb.set_x(&unit);
        }

        // Sanitize the y axis.
        if !bounds.is_finite_y() {
            nb.set_y(&unit);
        } else if !bounds.min_y.lt(bounds.max_y) {
            let c = bounds.center();
            let w = if bounds.is_valid_x() {
                bounds.width()
            } else {
                PlotNum::from_int(2)
            };
            nb.set_y_center_height(c.y, w);
            proof {
                lemma_sanitized_axis(
                    bounds.min_y,
                    bounds.max_y,
                    bounds.min_x,
                    bounds.max_x,
                    bounds.valid_x_spec(),
                    c.y,
                    w,
                    nb.min_y,
                    nb.max_y,
                    modest_bounds(bounds),
                );
            }
        }
        if !nb.is_valid_y() {
            nb.set_y(&unit);
        }

        let ghost sx = (rep(nb.min_x), rep(nb.max_x));
        let ghost sy = (rep(nb.min_y), rep(nb.max_y));
        let ghost mone = PlotNum::Fin(Rat { num: -1i64, den: 1i64 });
        let ghost one = PlotNum::Fin(Rat { num: 1i64, den: 1i64 });

        proof {
            lemma_sane_wf(bounds);
            assert(nb.min_x is Fin && nb.max_x is Fin && q_lt(sx.0, sx.1));
            assert(nb.min_y is Fin && nb.max_y is Fin && q_lt(sy.0, sy.1));
            assert((q_eq(sx.0, sane_x(bounds).0) && q_eq(sx.1, sane_x(bounds).1)) || (nb.min_x
                == mone && nb.max_x == one));
            assert((q_eq(sy.0, sane_y(bounds).0) && q_eq(sy.1, sane_y(bounds).1)) || (nb.min_y
                == mone && nb.max_y == one));
            if modest_bounds(bounds) {
                assert(q_eq(sx.0, sane_x(bounds).0) && q_eq(sx.1, sane_x(bounds).1));
                assert(q_eq(sy.0, sane_y(bounds).0) && q_eq(sy.1, sane_y(bounds).1));
            }
        }

        // Center the requested axes on zero.
        if center_axis.x {
            proof {
                lemma_sane_wf(bounds);
                if q_eq(sx.0, sane_x(bounds).0) && q_eq(sx.1, sane_x(bounds).1) {
                    lemma_centered_axis(nb.min_x, nb.max_x, sane_x(bounds).0, sane_x(bounds).1);
                }
                lemma_centered_axis(nb.min_x, nb.max_x, sx.0, sx.1);
                lemma_q_absmax_pos(sx.0, sx.1);
                lemma_q_neg_lt(q_absmax(sx.0, sx.1));
            }
            let ghost pre_x = (nb.min_x, nb.max_x);
            nb.make_x_symmetrical();
            proof {
                lemma_q_lt_cong(
                    q_neg(q_absmax(sx.0, sx.1)),
                    rep(nb.min_x),
                    q_absmax(sx.0, sx.1),
                    rep(nb.max_x),
                );
                assert(nb.min_x is Fin && nb.max_x is Fin && q_lt(rep(nb.min_x), rep(nb.max_x)));
                if pre_x.0 == mone && pre_x.1 == one {
                    assert(n_abs(pre_x.0) == one && n_abs(pre_x.1) == one);
                    assert(1int * 1int <= 1int * 1int) by (nonlinear_arith);
                    assert(nb.max_x == one);
                    assert(nb.min_x == mone);
                }
            }
        }
        if center_axis.y {
            proof {
                lemma_sane_wf(bounds);
                if q_eq(sy.0, sane_y(bounds).0) && q_eq(sy.1, sane_y(bounds).1) {
                    lemma_centered_axis(nb.min_y, nb.max_y, sane_y(bounds).0, sane_y(bounds).1);
                }
                lemma_centered_axis(nb.min_y, nb.max_y, sy.0, sy.1);
                lemma_q_absmax_pos(sy.0, sy.1);
                lemma_q_neg_lt(q_absmax(sy.0, sy.1));
            }
            let ghost pre_y = (nb.min_y, nb.max_y);
            nb.make_y_symmetrical();
            proof {
                lemma_q_lt_cong(
                    q_neg(q_absmax(sy.0, sy.1)),
                    rep(nb.min_y),
                    q_absmax(sy.0, sy.1),
                    rep(nb.max_y),
                );
                assert(nb.min_y is Fin && nb.max_y is Fin && q_lt(rep(nb.min_y), rep(nb.max_y)));
                if pre_y.0 == mone && pre_y.1 == one {
                    assert(n_abs(pre_y.0) == one && n_abs(pre_y.1) == one);
                    assert(1int * 1int <= 1int * 1int) by (nonlinear_arith);
                    assert(nb.max_y == one);
                    assert(nb.min_y == mone);
                }
            }
        }

        proof {
            assert(nb.valid_spec());
        }
        PlotTransform { frame, bounds: nb, centered: center_axis }
    }

    /// The screen rectangle.
    pub fn frame(&self) -> (r: &ScreenRect)
        ensures
            r == &self.frame,
    {
        &self.frame
    }

    /// The plot bounds.
    pub fn bounds(&self) -> (r: &PlotBounds)
        ensures
            r == &self.bounds,
    {
        &self.bounds
    }

    /// Replace the bounds; the caller supplies a valid window.
    pub fn set_bounds(&mut self, bounds: PlotBounds)
        requires
            old(self).wf(),
            bounds.wf(),
            bounds.valid_spec(),
        ensures
            final(self).wf(),
            final(self).bounds == bounds,
            final(self).frame == old(self).frame,
            final(self).centered == old(self).centered,
    {
        self.bounds = bounds;
    }

    /// The screen x position of the data value `value`; exact whenever
    /// the result is finite.
    pub fn position_from_point_x(&self, value: PlotNum) -> (r: PlotNum)
        requires
            self.wf(),
            value.wf(),
        ensures
            r.wf(),
            (value is Fin && r is Fin) ==> q_eq(rep(r), q_pos_x(*self, rep(value))),
            (value is Fin && q_bounded(rep(value), 0x100) && coords_bounded(*self, 0x100)) ==> r
                is Fin,
    {
        proof {
            assert(q_sub(rep(self.bounds.max_x), rep(self.bounds.min_x)).0 != 0);
        }
        remap_num(value, self.bounds.min_x, self.bounds.max_x, self.frame.min.x, self.frame.max.x)
    }

    /// The screen y position of the data value `value`: the y axis is
    /// inverted, the data maximum maps to the top edge.
    pub fn position_from_point_y(&self, value: PlotNum) -> (r: PlotNum)
        requires
            self.wf(),
            value.wf(),
        ensures
            r.wf(),
            (value is Fin && r is Fin) ==> q_eq(rep(r), q_pos_y(*self, rep(value))),
            (value is Fin && q_bounded(rep(value), 0x100) && coords_bounded(*self, 0x100)) ==> r
                is Fin,
    {
        proof {
            assert(q_sub(rep(self.bounds.max_y), rep(self.bounds.min_y)).0 != 0);
        }
        remap_num(value, self.bounds.min_y, self.bounds.max_y, self.frame.max.y, self.frame.min.y)
    }

    /// The screen position of a data point.
    pub fn position_from_point(&self, value: &PlotPoint) -> (r: ScreenPoint)
        requires
            self.wf(),
            value.wf(),
        ensures
            r.wf(),
            pos_point_rel(*self, *value, r),
    {
        ScreenPoint {
            x: self.position_from_point_x(value.x),
            y: self.position_from_point_y(value.y),
        }
    }

    /// The data point at a screen position.
    pub fn value_from_position(&self, pos: ScreenPoint) -> (r: PlotPoint)
        requires
            self.wf(),
            pos.wf(),
        ensures
            r.wf(),
            val_point_rel(*self, pos, r),
    {
        PlotPoint {
            x: remap_num(pos.x, self.frame.min.x, self.frame.max.x, self.bounds.min_x, self.bounds.max_x),
            y: remap_num(pos.y, self.frame.max.y, self.frame.min.y, self.bounds.min_y, self.bounds.max_y),
        }
    }

    /// The screen rectangle spanned by two data points (mirrored
    /// vertically by the y inversion).
    pub fn rect_from_values(&self, value1: &PlotPoint, value2: &PlotPoint) -> (r: ScreenRect)
        requires
            self.wf(),
            value1.wf(),
            value2.wf(),
        ensures
            r.min.wf(),
            r.max.wf(),
            exists|p1: ScreenPoint, p2: ScreenPoint|
                #![trigger pos_point_rel(*self, *value1, p1), pos_point_rel(*self, *value2, p2)]
                {
                    &&& pos_point_rel(*self, *value1, p1)
                    &&& pos_point_rel(*self, *value2, p2)
                    &&& r.min.x == n_min(p1.x, p2.x)
                    &&& r.min.y == n_min(p1.y, p2.y)
                    &&& r.max.x == n_max(p1.x, p2.x)
                    &&& r.max.y == n_max(p1.y, p2.y)
                },
    {
        let pos1 = self.position_from_point(value1);
        let pos2 = self.position_from_point(value2);
        let r = ScreenRect::from_two_pos(pos1, pos2);
        proof {
            assert(pos_point_rel(*self, *value1, pos1) && pos_point_rel(*self, *value2, pos2));
        }
        r
    }

    /// Screen units per data unit on the x axis: `frame.width / bounds.width`.
    pub fn dpos_dvalue_x(&self) -> (r: PlotNum)
        requires
            self.wf(),
        ensures
            r.wf(),
            r is Fin || r is NotANum,
            r is Fin ==> q_eq(rep(r), q_dpos_x(*self)),
            coords_bounded(*self, 0x100) ==> (r is Fin && q_bounded(rep(r), 0x4_0000_0000)),
    {
        let fw = self.frame.width();
        let bw = self.bounds.width();
        let r = fw.div_num(bw);
        proof {
            if coords_bounded(*self, 0x100) {
                lemma_q_op_bounds(rep(self.frame.max.x), rep(self.frame.min.x), 0x100, 0x100);
                assert(fw is Fin);
                lemma_q_op_bounds(rep(self.bounds.max_x), rep(self.bounds.min_x), 0x100, 0x100);
                assert(bw is Fin);
                lemma_q_op_bounds(rep(fw), rep(bw), 0x20000, 0x20000);
            }
            if bw is Fin {
                lemma_q_ops_wf(rep(self.bounds.max_x), rep(self.bounds.min_x));
                lemma_q_eq_zero(
                    rep(bw),
                    q_sub(rep(self.bounds.max_x), rep(self.bounds.min_x)),
                );
                assert(rep(bw).0 > 0);
            }
            if r is Fin {
                assert(fw is Fin && bw is Fin);
                let qf = q_sub(rep(self.frame.max.x), rep(self.frame.min.x));
                let qb = q_sub(rep(self.bounds.max_x), rep(self.bounds.min_x));
                lemma_q_ops_wf(rep(self.frame.max.x), rep(self.frame.min.x));
                lemma_q_ops_wf(rep(self.bounds.max_x), rep(self.bounds.min_x));
                assert(rep(bw).0 != 0);
                lemma_q_eq_zero(rep(bw), qb);
                lemma_q_ops_wf(rep(fw), rep(bw));
                lemma_q_ops_wf(qf, rep(bw));
                lemma_q_ops_wf(qf, qb);
                lemma_q_div_cong(rep(fw), qf, rep(bw));
                lemma_q_div_cong_divisor(qf, rep(bw), qb);
                lemma_q_eq_trans(rep(r), q_div(rep(fw), rep(bw)), q_div(qf, rep(bw)));
                lemma_q_eq_trans(rep(r), q_div(qf, rep(bw)), q_div(qf, qb));
            }
        }
        r
    }

    /// Screen units per data unit on the y axis; negative because the y
    /// axis is inverted.
    pub fn dpos_dvalue_y(&self) -> (r: PlotNum)
        requires
            self.wf(),
        ensures
            r.wf(),
            r is Fin || r is NotANum,
            r is Fin ==> q_eq(rep(r), q_dpos_y(*self)),
            coords_bounded(*self, 0x100) ==> (r is Fin && q_bounded(rep(r), 0x4_0000_0000)),
    {
        let fh = self.frame.height();
        let nfh = fh.neg_num();
        let bh = self.bounds.height();
        let r = nfh.div_num(bh);
        proof {
            if coords_bounded(*self, 0x100) {
                lemma_q_op_bounds(rep(self.frame.max.y), rep(self.frame.min.y), 0x100, 0x100);
                assert(fh is Fin);
                assert(nfh is Fin && q_bounded(rep(nfh), 0x20000));
                lemma_q_op_bounds(rep(self.bounds.max_y), rep(self.bounds.min_y), 0x100, 0x100);
                assert(bh is Fin);
                lemma_q_op_bounds(rep(nfh), rep(bh), 0x20000, 0x20000);
            }
            if bh is Fin {
                lemma_q_ops_wf(rep(self.bounds.max_y), rep(self.bounds.min_y));
                lemma_q_eq_zero(
                    rep(bh),
                    q_sub(rep(self.bounds.max_y), rep(self.bounds.min_y)),
                );
                assert(rep(bh).0 > 0);
            }
            if r is Fin {
                assert(nfh is Fin && bh is Fin && fh is Fin);
                let qf = q_neg(q_sub(rep(self.frame.max.y), rep(self.frame.min.y)));
                let qb = q_sub(rep(self.bounds.max_y), rep(self.bounds.min_y));
                lemma_q_ops_wf(rep(self.frame.max.y), rep(self.frame.min.y));
                lemma_q_ops_wf(rep(self.bounds.max_y), rep(self.bounds.min_y));
                assert(rep(nfh) == q_neg(rep(fh)));
                lemma_q_neg_cong(rep(fh), q_sub(rep(self.frame.max.y), rep(self.frame.min.y)));
                assert(rep(bh).0 != 0);
                lemma_q_eq_zero(rep(bh), qb);
                lemma_q_ops_wf(rep(nfh), rep(bh));
                lemma_q_ops_wf(qf, rep(bh));
                lemma_q_ops_wf(qf, qb);
                lemma_q_div_cong(rep(nfh), qf, rep(bh));
                lemma_q_div_cong_divisor(qf, rep(bh), qb);
                lemma_q_eq_trans(rep(r), q_div(rep(nfh), rep(bh)), q_div(qf, rep(bh)));
                lemma_q_eq_trans(rep(r), q_div(qf, rep(bh)), q_div(qf, qb));
            }
        }
        r
    }

    /// Screen units per data unit on both axes.
    pub fn dpos_dvalue(&self) -> (r: (PlotNum, PlotNum))
        requires
            self.wf(),
        ensures
            r.0.wf(),
            r.1.wf(),
            r.0 is Fin || r.0 is NotANum,
            r.1 is Fin || r.1 is NotANum,
            r.0 is Fin ==> q_eq(rep(r.0), q_dpos_x(*self)),
            r.1 is Fin ==> q_eq(rep(r.1), q_dpos_y(*self)),
            coords_bounded(*self, 0x100) ==> (r.0 is Fin && q_bounded(rep(r.0), 0x4_0000_0000)
                && r.1 is Fin && q_bounded(rep(r.1), 0x4_0000_0000)),
    {
        (self.dpos_dvalue_x(), self.dpos_dvalue_y())
    }

    /// Data units per screen unit on both axes: the reciprocals of
    /// [`Self::dpos_dvalue`].
    pub fn dvalue_dpos(&self) -> (r: (PlotNum, PlotNum))
        requires
            self.wf(),
        ensures
            r.0.wf(),
            r.1.wf(),
            r.0 is Fin ==> q_eq(rep(r.0), q_div(q_int(1), q_dpos_x(*self))),
            r.1 is Fin ==> q_eq(rep(r.1), q_div(q_int(1), q_dpos_y(*self))),
            (coords_bounded(*self, 0x100) && q_sub(rep(self.frame.max.x), rep(self.frame.min.x)).0
                != 0) ==> r.0 is Fin,
            (coords_bounded(*self, 0x100) && q_sub(rep(self.frame.max.y), rep(self.frame.min.y)).0
                != 0) ==> r.1 is Fin,
    {
        let d = self.dpos_dvalue();
        let rx = PlotNum::from_int(1).div_num(d.0);
        let ry = PlotNum::from_int(1).div_num(d.1);
        proof {
            if coords_bounded(*self, 0x100) {
                let qfx = q_sub(rep(self.frame.max.x), rep(self.frame.min.x));
                let qbx = q_sub(rep(self.bounds.max_x), rep(self.bounds.min_x));
                lemma_q_ops_wf(rep(self.frame.max.x), rep(self.frame.min.x));
                lemma_q_ops_wf(rep(self.bounds.max_x), rep(self.bounds.min_x));
                if qfx.0 != 0 {
                    lemma_q_ops_wf(qfx, qbx);
                    crate::scalar::lemma_q_div_num_nonzero(qfx, qbx);
                    lemma_q_eq_zero(rep(d.0), q_dpos_x(*self));
                    assert(rep(d.0).0 != 0);
                    lemma_q_op_bounds(q_int(1), rep(d.0), 1, 0x4_0000_0000);
                    assert(rx is Fin);
                }
                let qfy = q_neg(q_sub(rep(self.frame.max.y), rep(self.frame.min.y)));
                let qby = q_sub(rep(self.bounds.max_y), rep(self.bounds.min_y));
                lemma_q_ops_wf(rep(self.frame.max.y), rep(self.frame.min.y));
                lemma_q_ops_wf(rep(self.bounds.max_y), rep(self.bounds.min_y));
                if q_sub(rep(self.frame.max.y), rep(self.frame.min.y)).0 != 0 {
                    lemma_q_ops_wf(qfy, qby);
                    crate::scalar::lemma_q_div_num_nonzero(qfy, qby);
                    lemma_q_eq_zero(rep(d.1), q_dpos_y(*self));
                    assert(rep(d.1).0 != 0);
                    lemma_q_op_bounds(q_int(1), rep(d.1), 1, 0x4_0000_0000);
                    assert(ry is Fin);
                }
            }
            lemma_q_ops_wf(rep(self.frame.max.x), rep(self.frame.min.x));
            lemma_q_ops_wf(rep(self.bounds.max_x), rep(self.bounds.min_x));
            lemma_q_ops_wf(
                q_sub(rep(self.frame.max.x), rep(self.frame.min.x)),
                q_sub(rep(self.bounds.max_x), rep(self.bounds.min_x)),
            );
            lemma_q_ops_wf(rep(self.frame.max.y), rep(self.frame.min.y));
            lemma_q_ops_wf(rep(self.bounds.max_y), rep(self.bounds.min_y));
            lemma_q_ops_wf(
                q_neg(q_sub(rep(self.frame.max.y), rep(self.frame.min.y))),
                q_sub(rep(self.bounds.max_y), rep(self.bounds.min_y)),
            );
            if rx is Fin {
                assert(d.0 is Fin);
                assert(rep(d.0).0 != 0);
                lemma_q_eq_zero(rep(d.0), q_dpos_x(*self));
                lemma_q_ops_wf(q_int(1), rep(d.0));
                lemma_q_ops_wf(q_int(1), q_dpos_x(*self));
                lemma_q_div_cong_divisor(q_int(1), rep(d.0), q_dpos_x(*self));
                lemma_q_eq_trans(
                    rep(rx),
                    q_div(q_int(1), rep(d.0)),
                    q_div(q_int(1), q_dpos_x(*self)),
                );
            }
            if ry is Fin {
                assert(d.1 is Fin);
                assert(rep(d.1).0 != 0);
                lemma_q_eq_zero(rep(d.1), q_dpos_y(*self));
                lemma_q_ops_wf(q_int(1), rep(d.1));
                lemma_q_ops_wf(q_int(1), q_dpos_y(*self));
                lemma_q_div_cong_divisor(q_int(1), rep(d.1), q_dpos_y(*self));
                lemma_q_eq_trans(
                    rep(ry),
                    q_div(q_int(1), rep(d.1)),
                    q_div(q_int(1), q_dpos_y(*self)),
                );
            }
        }
        (rx, ry)
    }

    /// Pan the bounds by a screen-space delta, converted to data space; a
    /// centered axis never moves. The bounds are replaced only when the
    /// result is still valid.
    pub fn translate_bounds(&mut self, delta_pos: (PlotNum, PlotNum))
        requires
            old(self).wf(),
            delta_pos.0.wf(),
            delta_pos.1.wf(),
        ensures
            final(self).wf(),
            final(self).frame == old(self).frame,
            final(self).centered == old(self).centered,
            final(self).bounds.valid_spec(),
            old(self).centered.x ==> {
                &&& final(self).bounds.min_x is Fin
                &&& q_eq(rep(final(self).bounds.min_x), rep(old(self).bounds.min_x))
                &&& final(self).bounds.max_x is Fin
                &&& q_eq(rep(final(self).bounds.max_x), rep(old(self).bounds.max_x))
            },
            old(self).centered.y ==> {
                &&& final(self).bounds.min_y is Fin
                &&& q_eq(rep(final(self).bounds.min_y), rep(old(self).bounds.min_y))
                &&& final(self).bounds.max_y is Fin
                &&& q_eq(rep(final(self).bounds.max_y), rep(old(self).bounds.max_y))
            },
            exists|dvx: PlotNum, dvy: PlotNum, tx: PlotNum, ty: PlotNum, cand: PlotBounds|
                #![trigger recip_scale_rel(*old(self), true, dvx), recip_scale_rel(*old(self), false, dvy), crate::bounds::translated_rel(old(self).bounds, tx, ty, cand)]
                {
                    &&& tx.wf()
                    &&& ty.wf()
                    &&& cand.wf()
                    &&& recip_scale_rel(*old(self), true, dvx)
                    &&& recip_scale_rel(*old(self), false, dvy)
                    &&& (old(self).centered.x ==> tx == (PlotNum::Fin(Rat { num: 0i64, den: 1i64 })))
                    &&& (!old(self).centered.x ==> mul_rel(delta_pos.0, dvx, tx))
                    &&& (old(self).centered.y ==> ty == (PlotNum::Fin(Rat { num: 0i64, den: 1i64 })))
                    &&& (!old(self).centered.y ==> mul_rel(delta_pos.1, dvy, ty))
                    &&& crate::bounds::translated_rel(old(self).bounds, tx, ty, cand)
                    &&& (cand.valid_spec() ==> final(self).bounds == cand)
                    &&& (!cand.valid_spec() ==> final(self).bounds == old(self).bounds)
                },
    {
        let dv = self.dvalue_dpos();
        let tx = if self.centered.x {
            PlotNum::zero()
        } else {
            delta_pos.0.mul_num(dv.0)
        };
        let ty = if self.centered.y {
            PlotNum::zero()
        } else {
            delta_pos.1.mul_num(dv.1)
        };
        let mut nb = self.bounds;
        nb.translate_x(tx);
        let ghost mid = nb;
        nb.translate_y(ty);
        proof {
            assert(crate::bounds::translate_x_rel(old(self).bounds, tx, mid));
            assert(crate::bounds::translated_rel(old(self).bounds, tx, ty, nb));
            assert(recip_scale_rel(*old(self), true, dv.0));
            assert(recip_scale_rel(*old(self), false, dv.1));
            if old(self).centered.x {
                lemma_zero_shift(old(self).bounds.min_x, tx, nb.min_x);
                lemma_zero_shift(old(self).bounds.max_x, tx, nb.max_x);
            }
            if old(self).centered.y {
                lemma_zero_shift(old(self).bounds.min_y, ty, nb.min_y);
                lemma_zero_shift(old(self).bounds.max_y, ty, nb.max_y);
            }
        }
        if nb.is_valid() {
            self.bounds = nb;
        }
    }

    /// Zoom each axis by its factor around the given screen position. The
    /// bounds are replaced only when the zoomed bounds are still valid; in
    /// particular a zero zoom factor leaves the transform unchanged.
    pub fn zoom(&mut self, zoom_factor: (PlotNum, PlotNum), center: ScreenPoint)
        requires
            old(self).wf(),
            zoom_factor.0.wf(),
            zoom_factor.1.wf(),
            center.wf(),
        ensures
            final(self).wf(),
            final(self).frame == old(self).frame,
            final(self).centered == old(self).centered,
            final(self).bounds.valid_spec(),
            (zoom_factor.0 matches PlotNum::Fin(q) && q.num == 0) ==> final(self).bounds == old(
                self,
            ).bounds,
            (zoom_factor.1 matches PlotNum::Fin(q) && q.num == 0) ==> final(self).bounds == old(
                self,
            ).bounds,
            exists|c: PlotPoint, cand: PlotBounds|
                #![trigger val_point_rel(*old(self), center, c), crate::bounds::zoomed_rel(old(self).bounds, zoom_factor, c, cand)]
                {
                    &&& c.wf()
                    &&& cand.wf()
                    &&& val_point_rel(*old(self), center, c)
                    &&& crate::bounds::zoomed_rel(old(self).bounds, zoom_factor, c, cand)
                    &&& (cand.valid_spec() ==> final(self).bounds == cand)
                    &&& (!cand.valid_spec() ==> final(self).bounds == old(self).bounds)
                },
    {
        let center_val = self.value_from_position(center);
        let mut nb = self.bounds;
        nb.zoom(zoom_factor, center_val);
        proof {
            assert(val_point_rel(*old(self), center, center_val));
            assert(crate::bounds::zoomed_rel(old(self).bounds, zoom_factor, center_val, nb));
        }
        if nb.is_valid() {
            self.bounds = nb;
        }
    }

    /// The ratio between the data-per-screen-unit scales of the two axes;
    /// 1 means both axes use the same scale.
    fn aspect(&self) -> (r: PlotNum)
        requires
            self.wf(),
        ensures
            aspect_val_rel(*self, r),
    {
        let rw = self.frame.width();
        let rh = self.frame.height();
        let bw = self.bounds.width();
        let bh = self.bounds.height();
        let a1 = bw.div_num(rw);
        let a2 = bh.div_num(rh);
        let r = a1.div_num(a2);
        proof {
            let qbx = q_sub(rep(self.bounds.max_x), rep(self.bounds.min_x));
            let qfx = q_sub(rep(self.frame.max.x), rep(self.frame.min.x));
            let qby = q_sub(rep(self.bounds.max_y), rep(self.bounds.min_y));
            let qfy = q_sub(rep(self.frame.max.y), rep(self.frame.min.y));
            if r is Fin && qfx.0 != 0 && qfy.0 != 0 {
                lemma_q_ops_wf(rep(self.bounds.max_x), rep(self.bounds.min_x));
                lemma_q_ops_wf(rep(self.frame.max.x), rep(self.frame.min.x));
                lemma_q_ops_wf(rep(self.bounds.max_y), rep(self.bounds.min_y));
                lemma_q_ops_wf(rep(self.frame.max.y), rep(self.frame.min.y));
                assert(a2 is NotANum ==> r is NotANum);
                assert(rh is NotANum ==> a2 is NotANum);
                assert(bh is NotANum ==> a2 is NotANum);
                assert(rh is Fin && bh is Fin);
                lemma_q_eq_zero(rep(rh), qfy);
                assert(rep(rh).0 != 0);
                assert(a2 is Fin);
                assert(a1 is Fin);
                assert(rw is Fin && bw is Fin);
                // the first quotient stands for the exact x scale ratio
                lemma_q_eq_zero(rep(rw), qfx);
                assert(rep(rw).0 != 0);
                lemma_q_ops_wf(rep(bw), rep(rw));
                lemma_q_ops_wf(qbx, rep(rw));
                lemma_q_ops_wf(qbx, qfx);
                lemma_q_div_cong(rep(bw), qbx, rep(rw));
                lemma_q_div_cong_divisor(qbx, rep(rw), qfx);
                lemma_q_eq_trans(rep(a1), q_div(rep(bw), rep(rw)), q_div(qbx, rep(rw)));
                lemma_q_eq_trans(rep(a1), q_div(qbx, rep(rw)), q_div(qbx, qfx));
                // the second quotient stands for the exact y scale ratio
                lemma_q_eq_zero(rep(rh), qfy);
                assert(rep(rh).0 != 0);
                lemma_q_ops_wf(rep(bh), rep(rh));
                lemma_q_ops_wf(qby, rep(rh));
                lemma_q_ops_wf(qby, qfy);
                lemma_q_div_cong(rep(bh), qby, rep(rh));
                lemma_q_div_cong_divisor(qby, rep(rh), qfy);
                lemma_q_eq_trans(rep(a2), q_div(rep(bh), rep(rh)), q_div(qby, rep(rh)));
                lemma_q_eq_trans(rep(a2), q_div(qby, rep(rh)), q_div(qby, qfy));
                // and their quotient for the aspect
                assert(rep(a2).0 != 0);
                crate::scalar::lemma_q_div_num_nonzero(qby, qfy);
                lemma_q_eq_zero(rep(a2), q_div(qby, qfy));
                lemma_q_ops_wf(rep(a1), rep(a2));
                lemma_q_ops_wf(q_div(qbx, qfx), rep(a2));
                lemma_q_ops_wf(q_div(qbx, qfx), q_div(qby, qfy));
                lemma_q_div_cong(rep(a1), q_div(qbx, qfx), rep(a2));
                lemma_q_div_cong_divisor(q_div(qbx, qfx), rep(a2), q_div(qby, qfy));
                lemma_q_eq_trans(rep(r), q_div(rep(a1), rep(a2)), q_div(q_div(qbx, qfx), rep(a2)));
                lemma_q_eq_trans(
                    rep(r),
                    q_div(q_div(qbx, qfx), rep(a2)),
                    q_div(q_div(qbx, qfx), q_div(qby, qfy)),
                );
            }
        }
        r
    }

    /// Bring the aspect ratio to `aspect` by widening whichever axis is
    /// too narrow (never shrinking either), symmetric about the current
    /// ranges; within a tolerance of one part in a hundred thousand
    /// nothing changes. The bounds are replaced only when still valid.
    pub fn set_aspect_by_expanding(&mut self, aspect: PlotNum)
        requires
            old(self).wf(),
            aspect.wf(),
        ensures
            final(self).wf(),
            final(self).frame == old(self).frame,
            final(self).centered == old(self).centered,
            final(self).bounds.valid_spec(),
            exists|cur: PlotNum, diff: PlotNum|
                #![trigger aspect_val_rel(*old(self), cur), sub_rel(cur, aspect, diff)]
                {
                    &&& cur.wf()
                    &&& diff.wf()
                    &&& aspect_val_rel(*old(self), cur)
                    &&& sub_rel(cur, aspect, diff)
                    &&& (n_lt(n_abs(diff), PlotNum::Fin(Rat { num: 1i64, den: 100000i64 }))
                        ==> final(self).bounds == old(self).bounds)
                    &&& (!n_lt(n_abs(diff), PlotNum::Fin(Rat { num: 1i64, den: 100000i64 }))
                        ==> (exists|pad: PlotNum, cand: PlotBounds|
                        #![trigger crate::bounds::expand_x_rel(old(self).bounds, pad, cand)]
                        #![trigger crate::bounds::expand_y_rel(old(self).bounds, pad, cand)]
                        {
                            &&& pad.wf()
                            &&& cand.wf()
                            &&& (n_lt(cur, aspect) ==> aspect_pad_rel(
                                *old(self),
                                aspect,
                                cur,
                                true,
                                pad,
                            ) && crate::bounds::expand_x_rel(old(self).bounds, pad, cand))
                            &&& (!n_lt(cur, aspect) ==> aspect_pad_rel(
                                *old(self),
                                cur,
                                aspect,
                                false,
                                pad,
                            ) && crate::bounds::expand_y_rel(old(self).bounds, pad, cand))
                            &&& (cand.valid_spec() ==> final(self).bounds == cand)
                            &&& (!cand.valid_spec() ==> final(self).bounds == old(self).bounds)
                        }))
                },
    {
        let current_aspect = self.aspect();
        let epsilon = PlotNum::rat(1, 100000);
        let diff = current_aspect.sub_num(aspect);
        if diff.abs_num().lt(epsilon) {
            return;
        }
        let one = PlotNum::from_int(1);
        let half = PlotNum::rat(1, 2);
        let mut nb = self.bounds;
        if current_aspect.lt(aspect) {
            let q = aspect.div_num(current_aspect);
            let sgap = q.sub_num(one);
            let ext = self.bounds.width();
            let m1 = sgap.mul_num(ext);
            let pad = m1.mul_num(half);
            nb.expand_x(pad);
            if nb.is_valid() {
                self.bounds = nb;
            }
            proof {
                assert(aspect_pad_rel(*old(self), aspect, current_aspect, true, pad));
            }
        } else {
            let q = current_aspect.div_num(aspect);
            let sgap = q.sub_num(one);
            let ext = self.bounds.height();
            let m1 = sgap.mul_num(ext);
            let pad = m1.mul_num(half);
            nb.expand_y(pad);
            if nb.is_valid() {
                self.bounds = nb;
            }
            proof {
                assert(aspect_pad_rel(*old(self), current_aspect, aspect, false, pad));
            }
        }
    }

    /// Bring the aspect ratio to `aspect` by expanding the axis of the
    /// caller's choice; within a tolerance of one part in a hundred
    /// thousand nothing changes. The bounds are replaced only when still
    /// valid.
    pub fn set_aspect_by_changing_axis(&mut self, aspect: PlotNum, axis: Axis)
        requires
            old(self).wf(),
            aspect.wf(),
        ensures
            final(self).wf(),
            final(self).frame == old(self).frame,
            final(self).centered == old(self).centered,
            final(self).bounds.valid_spec(),
            exists|cur: PlotNum, diff: PlotNum|
                #![trigger aspect_val_rel(*old(self), cur), sub_rel(cur, aspect, diff)]
                {
                    &&& cur.wf()
                    &&& diff.wf()
                    &&& aspect_val_rel(*old(self), cur)
                    &&& sub_rel(cur, aspect, diff)
                    &&& (n_lt(n_abs(diff), PlotNum::Fin(Rat { num: 1i64, den: 100000i64 }))
                        ==> final(self).bounds == old(self).bounds)
                    &&& (!n_lt(n_abs(diff), PlotNum::Fin(Rat { num: 1i64, den: 100000i64 }))
                        ==> (exists|pad: PlotNum, cand: PlotBounds|
                        #![trigger crate::bounds::expand_x_rel(old(self).bounds, pad, cand)]
                        #![trigger crate::bounds::expand_y_rel(old(self).bounds, pad, cand)]
                        {
                            &&& pad.wf()
                            &&& cand.wf()
                            &&& (axis is X ==> aspect_pad_rel(*old(self), aspect, cur, true, pad)
                                && crate::bounds::expand_x_rel(old(self).bounds, pad, cand))
                            &&& (axis is Y ==> aspect_pad_rel(*old(self), cur, aspect, false, pad)
                                && crate::bounds::expand_y_rel(old(self).bounds, pad, cand))
                            &&& (cand.valid_spec() ==> final(self).bounds == cand)
                            &&& (!cand.valid_spec() ==> final(self).bounds == old(self).bounds)
                        }))
                },
    {
        let current_aspect = self.aspect();
        let epsilon = PlotNum::rat(1, 100000);
        let diff = current_aspect.sub_num(aspect);
        if diff.abs_num().lt(epsilon) {
            return;
        }
        let one = PlotNum::from_int(1);
        let half = PlotNum::rat(1, 2);
        let mut nb = self.bounds;
        match axis {
            Axis::X => {
                let q = aspect.div_num(current_aspect);
                let sgap = q.sub_num(one);
                let ext = self.bounds.width();
                let m1 = sgap.mul_num(ext);
                let pad = m1.mul_num(half);
                nb.expand_x(pad);
                if nb.is_valid() {
                    self.bounds = nb;
                }
                proof {
                    assert(aspect_pad_rel(*old(self), aspect, current_aspect, true, pad));
                }
            },
            Axis::Y => {
                let q = current_aspect.div_num(aspect);
                let sgap = q.sub_num(one);
                let ext = self.bounds.height();
                let m1 = sgap.mul_num(ext);
                let pad = m1.mul_num(half);
                nb.expand_y(pad);
                if nb.is_valid() {
                    self.bounds = nb;
                }
                proof {
                    assert(aspect_pad_rel(*old(self), current_aspect, aspect, false, pad));
                }
            },
        }
    }
}

/// Shifting a finite coordinate by an exact zero and clamping leaves its
/// value unchanged.
proof fn lemma_zero_shift(a: PlotNum, d: PlotNum, r: PlotNum)
    requires
        a.wf(),
        a is Fin,
        d == (PlotNum::Fin(crate::scalar::Rat { num: 0i64, den: 1i64 })),
        crate::bounds::shift_clamp_rel(a, d, r),
    ensures
        r is Fin,
        q_eq(rep(r), rep(a)),
{
    let m = choose|m: PlotNum|
        crate::scalar::add_rel(a, d, m) && m.wf() && r == crate::scalar::n_clamped(m);
    assert(crate::scalar::add_rel(a, d, m));
    let p = q_add(rep(a), (0int, 1int));
    assert(p.0 == rep(a).0 * 1 + 0 * rep(a).1);
    assert(crate::scalar::iabs(p.0) <= i64::MAX as int && p.1 <= i64::MAX as int);
    assert(m is Fin);
    assert(r == m);
    assert(q_eq(rep(m), p));
    lemma_q_ops_wf(rep(a), (0int, 1int));
    assert(q_eq(p, rep(a))) by (nonlinear_arith)
        requires
            p == q_add((rep(a).0, rep(a).1), (0int, 1int)),
    ;
    lemma_q_eq_trans(rep(r), p, rep(a));
}

/// The exact screen positions are well-formed pairs.
pub proof fn lemma_q_pos_wf(t: PlotTransform, v: (int, int))
    requires
        t.wf(),
        q_wf(v),
    ensures
        q_wf(q_pos_x(t, v)),
        q_wf(q_pos_y(t, v)),
{
    let a = rep(t.bounds.min_x);
    let b = rep(t.bounds.max_x);
    let c = rep(t.frame.min.x);
    let d = rep(t.frame.max.x);
    assert(q_sub(b, a).0 > 0);
    lemma_q_ops_wf(b, a);
    lemma_q_ops_wf(v, a);
    lemma_q_ops_wf(d, c);
    lemma_q_ops_wf(q_sub(v, a), q_sub(b, a));
    lemma_q_ops_wf(q_div(q_sub(v, a), q_sub(b, a)), q_sub(d, c));
    lemma_q_ops_wf(q_mul(q_div(q_sub(v, a), q_sub(b, a)), q_sub(d, c)), c);
    let ay = rep(t.bounds.min_y);
    let by = rep(t.bounds.max_y);
    let cy = rep(t.frame.max.y);
    let dy = rep(t.frame.min.y);
    assert(q_sub(by, ay).0 > 0);
    lemma_q_ops_wf(by, ay);
    lemma_q_ops_wf(v, ay);
    lemma_q_ops_wf(dy, cy);
    lemma_q_ops_wf(q_sub(v, ay), q_sub(by, ay));
    lemma_q_ops_wf(q_div(q_sub(v, ay), q_sub(by, ay)), q_sub(dy, cy));
    lemma_q_ops_wf(q_mul(q_div(q_sub(v, ay), q_sub(by, ay)), q_sub(dy, cy)), cy);
}

/// Zooming scales an axis extent by the reciprocal of the factor: the
/// difference of two coordinates zoomed about the same center and by the
/// same nonzero factor is their old difference divided by the factor. In
/// particular the zoomed window's width and height are the old ones
/// divided by the zoom factors.
pub proof fn lemma_zoom_scales_extent(m0: (int, int), m1: (int, int), c: (int, int), f: (int, int))
    requires
        q_wf(m0),
        q_wf(m1),
        q_wf(c),
        q_wf(f),
        f.0 != 0,
    ensures
        q_eq(
            q_sub(q_add(q_div(q_sub(m1, c), f), c), q_add(q_div(q_sub(m0, c), f), c)),
            q_div(q_sub(m1, m0), f),
        ),
{
    let u0 = q_div(q_sub(m0, c), f);
    let u1 = q_div(q_sub(m1, c), f);
    lemma_q_ops_wf(m0, c);
    lemma_q_ops_wf(m1, c);
    lemma_q_ops_wf(m1, m0);
    lemma_q_ops_wf(q_sub(m0, c), f);
    lemma_q_ops_wf(q_sub(m1, c), f);
    lemma_q_ops_wf(q_sub(m1, m0), f);
    crate::scalar::lemma_q_sub_of_adds(u1, u0, c);
    crate::scalar::lemma_q_sub_of_divs(q_sub(m1, c), q_sub(m0, c), f);
    // the inner differences cancel the shared center
    crate::scalar::lemma_q_sub_of_adds(m1, m0, q_neg(c));
    assert(q_add(m1, q_neg(c)) == q_sub(m1, c) && q_add(m0, q_neg(c)) == q_sub(m0, c)) by (nonlinear_arith);
    lemma_q_ops_wf(u1, c);
    lemma_q_ops_wf(u0, c);
    lemma_q_ops_wf(q_add(u1, c), q_add(u0, c));
    lemma_q_ops_wf(u1, u0);
    lemma_q_ops_wf(q_sub(m1, c), q_sub(m0, c));
    lemma_q_div_cong(q_sub(q_sub(m1, c), q_sub(m0, c)), q_sub(m1, m0), f);
    lemma_q_ops_wf(q_sub(q_sub(m1, c), q_sub(m0, c)), f);
    lemma_q_eq_trans(
        q_sub(q_add(u1, c), q_add(u0, c)),
        q_sub(u1, u0),
        q_div(q_sub(q_sub(m1, c), q_sub(m0, c)), f),
    );
    lemma_q_eq_trans(
        q_sub(q_add(u1, c), q_add(u0, c)),
        q_div(q_sub(q_sub(m1, c), q_sub(m0, c)), f),
        q_div(q_sub(m1, m0), f),
    );
}

/// Mapping a data value to its screen position and back returns exactly
/// the same value, on both axes, whenever the frame has positive extent.
pub proof fn lemma_round_trip(t: PlotTransform, v: (int, int))
    requires
        t.wf(),
        q_wf(v),
        q_lt(rep(t.frame.min.x), rep(t.frame.max.x)),
        q_lt(rep(t.frame.min.y), rep(t.frame.max.y)),
    ensures
        q_eq(q_val_x(t, q_pos_x(t, v)), v),
        q_eq(q_val_y(t, q_pos_y(t, v)), v),
{
    let a = rep(t.bounds.min_x);
    let b = rep(t.bounds.max_x);
    let c = rep(t.frame.min.x);
    let d = rep(t.frame.max.x);
    assert(q_sub(b, a).0 != 0);
    assert(q_sub(d, c).0 != 0);
    crate::scalar::lemma_q_remap_round_trip(v, a, b, c, d);
    let ay = rep(t.bounds.min_y);
    let by = rep(t.bounds.max_y);
    let cy = rep(t.frame.max.y);
    let dy = rep(t.frame.min.y);
    assert(q_sub(by, ay).0 != 0);
    assert(q_sub(dy, cy).0 != 0);
    crate::scalar::lemma_q_remap_round_trip(v, ay, by, cy, dy);
}

/// The forward mapping is strictly monotone: on the x axis a larger data
/// value maps to a larger screen x; on the (inverted) y axis a larger
/// data value maps to a strictly smaller screen y.
pub proof fn lemma_position_monotone(t: PlotTransform, v1: (int, int), v2: (int, int))
    requires
        t.wf(),
        q_wf(v1),
        q_wf(v2),
        q_lt(v1, v2),
    ensures
        q_lt(rep(t.frame.min.x), rep(t.frame.max.x)) ==> q_lt(q_pos_x(t, v1), q_pos_x(t, v2)),
        q_lt(rep(t.frame.min.y), rep(t.frame.max.y)) ==> q_lt(q_pos_y(t, v2), q_pos_y(t, v1)),
    {
    let a = rep(t.bounds.min_x);
    let b = rep(t.bounds.max_x);
    let c = rep(t.frame.min.x);
    let d = rep(t.frame.max.x);
    assert(q_sub(b, a).0 > 0);
    if q_lt(c, d) {
        assert(q_sub(d, c).0 > 0);
        crate::scalar::lemma_q_remap_mono(v1, v2, a, b, c, d);
    }
    let ay = rep(t.bounds.min_y);
    let by = rep(t.bounds.max_y);
    let cy = rep(t.frame.max.y);
    let dy = rep(t.frame.min.y);
    assert(q_sub(by, ay).0 > 0);
    if q_lt(rep(t.frame.min.y), rep(t.frame.max.y)) {
        assert(q_sub(dy, cy).0 < 0);
        crate::scalar::lemma_q_remap_mono(v1, v2, ay, by, cy, dy);
    }
}

/// The sanitized ranges are well-formed pairs.
proof fn lemma_sane_wf(b: PlotBounds)
    requires
        b.wf(),
    ensures
        q_wf(sane_x(b).0),
        q_wf(sane_x(b).1),
        q_wf(sane_y(b).0),
        q_wf(sane_y(b).1),
{
    lemma_q_ops_wf(rep(b.min_x), rep(b.max_x));
    lemma_q_ops_wf(q_add(rep(b.min_x), rep(b.max_x)), q_int(2));
    lemma_q_ops_wf(rep(b.min_y), rep(b.max_y));
    lemma_q_ops_wf(q_add(rep(b.min_y), rep(b.max_y)), q_int(2));
    lemma_q_ops_wf(rep(b.max_y), rep(b.min_y));
    lemma_q_ops_wf(rep(b.max_x), rep(b.min_x));
    let cx = q_mid(rep(b.min_x), rep(b.max_x));
    let wx: (int, int) = if b.valid_y_spec() {
        q_sub(rep(b.max_y), rep(b.min_y))
    } else {
        (2int, 1int)
    };
    lemma_q_ops_wf(wx, q_int(2));
    lemma_q_ops_wf(cx, q_half(wx));
    let cy = q_mid(rep(b.min_y), rep(b.max_y));
    let wy: (int, int) = if b.valid_x_spec() {
        q_sub(rep(b.max_x), rep(b.min_x))
    } else {
        (2int, 1int)
    };
    lemma_q_ops_wf(wy, q_int(2));
    lemma_q_ops_wf(cy, q_half(wy));
}

/// Making an axis symmetric about zero matches [`centered_pair`]: the new
/// endpoints stand for the negated and plain larger absolute endpoint.
proof fn lemma_centered_axis(a: PlotNum, b: PlotNum, s0: (int, int), s1: (int, int))
    requires
        a.wf(),
        b.wf(),
        a is Fin,
        b is Fin,
        q_wf(s0),
        q_wf(s1),
        q_eq(rep(a), s0),
        q_eq(rep(b), s1),
    ensures
        n_max(n_abs(a), n_abs(b)) is Fin,
        q_eq(rep(n_max(n_abs(a), n_abs(b))), q_absmax(s0, s1)),
        n_neg(n_max(n_abs(a), n_abs(b))) is Fin,
        q_eq(rep(n_neg(n_max(n_abs(a), n_abs(b)))), q_neg(q_absmax(s0, s1))),
{
    let ua = n_abs(a);
    let ub = n_abs(b);
    assert(ua is Fin && rep(ua) == q_abs(rep(a)));
    assert(ub is Fin && rep(ub) == q_abs(rep(b)));
    lemma_q_abs_cong(rep(a), s0);
    lemma_q_abs_cong(rep(b), s1);
    lemma_q_lt_cong(q_abs(rep(a)), q_abs(s0), q_abs(rep(b)), q_abs(s1));
    let m = n_max(ua, ub);
    assert(m is Fin);
    if q_le(q_abs(rep(a)), q_abs(rep(b))) {
        assert(m == ub);
        assert(q_eq(rep(m), q_absmax(s0, s1)));
    } else {
        assert(m == ua);
        assert(q_eq(rep(m), q_absmax(s0, s1)));
    }
    assert(rep(n_neg(m)) == q_neg(rep(m)));
    lemma_q_neg_cong(rep(m), q_absmax(s0, s1));
}

/// One sanitized axis: given the original axis `(lo, hi)` (finite, with
/// `hi <= lo` as values) and the other axis, the recentered interval is
/// exact and ordered whenever representable, and representable for modest
/// inputs.
#[verifier::rlimit(50)]
proof fn lemma_sanitized_axis(
    lo: PlotNum,
    hi: PlotNum,
    other_lo: PlotNum,
    other_hi: PlotNum,
    other_valid: bool,
    c: PlotNum,
    w: PlotNum,
    new_lo: PlotNum,
    new_hi: PlotNum,
    modest: bool,
)
    requires
        lo.wf(),
        hi.wf(),
        other_lo.wf(),
        other_hi.wf(),
        c.wf(),
        w.wf(),
        new_lo.wf(),
        new_hi.wf(),
        lo is Fin,
        hi is Fin,
        mid_rel(lo, hi, c),
        other_valid <==> (other_lo is Fin && other_hi is Fin && q_lt(rep(other_lo), rep(other_hi))),
        other_valid ==> crate::scalar::sub_rel(other_hi, other_lo, w),
        !other_valid ==> w == (PlotNum::Fin(crate::scalar::Rat { num: 2i64, den: 1i64 })),
        span_rel(c, w, new_lo, new_hi),
        modest ==> {
            &&& q_bounded(rep(lo), 0x4000)
            &&& q_bounded(rep(hi), 0x4000)
            &&& (other_lo is Fin ==> q_bounded(rep(other_lo), 0x4000))
            &&& (other_hi is Fin ==> q_bounded(rep(other_hi), 0x4000))
        },
    ensures
        ({
            let cs = q_mid(rep(lo), rep(hi));
            let ws = if other_valid {
                q_sub(rep(other_hi), rep(other_lo))
            } else {
                (2int, 1int)
            };
            &&& ((new_lo is Fin && new_hi is Fin) ==> {
                &&& q_eq(rep(new_lo), q_sub(cs, q_half(ws)))
                &&& q_eq(rep(new_hi), q_add(cs, q_half(ws)))
                &&& q_lt(rep(new_lo), rep(new_hi))
            })
            &&& (modest ==> (new_lo is Fin && new_hi is Fin))
        }),
{
    let rl = rep(lo);
    let rh = rep(hi);
    let cs = q_mid(rl, rh);
    let ws: (int, int) = if other_valid {
        q_sub(rep(other_hi), rep(other_lo))
    } else {
        (2int, 1int)
    };
    lemma_q_ops_wf(rl, rh);
    lemma_q_ops_wf(q_add(rl, rh), q_int(2));
    if other_valid {
        lemma_q_ops_wf(rep(other_hi), rep(other_lo));
    }
    if modest {
        // the midpoint and the borrowed width are representable
        assert(c is Fin && q_bounded(rep(c), 0x4000_0000));
        if other_valid {
            lemma_q_op_bounds(rep(other_hi), rep(other_lo), 0x4000, 0x4000);
            assert(w is Fin);
            assert(q_bounded(rep(w), 0x2000_0000));
        }
        assert(w is Fin && q_bounded(rep(w), 0x4000_0000));
        assert(new_lo is Fin && new_hi is Fin);
    }
    if new_lo is Fin && new_hi is Fin {
        assert(c is Fin && w is Fin);
        let rc = rep(c);
        let rw = rep(w);
        // rw stands for ws, and ws is positive
        assert(q_eq(rw, ws));
        assert(ws.0 > 0);
        lemma_q_eq_zero(rw, ws);
        assert(q_lt(q_int(0), rw));
        assert(q_lt(rep(new_lo), rep(new_hi)));
        // substitute the exact midpoint and width into the endpoints
        lemma_q_ops_wf(rw, q_int(2));
        lemma_q_ops_wf(ws, q_int(2));
        lemma_q_div_cong(rw, ws, q_int(2));
        lemma_q_ops_wf(rc, q_half(rw));
        lemma_q_ops_wf(rc, q_half(ws));
        lemma_q_ops_wf(cs, q_half(ws));
        lemma_q_sub_cong_r(rc, q_half(rw), q_half(ws));
        lemma_q_add_cong_r(rc, q_half(rw), q_half(ws));
        lemma_q_sub_cong(rc, cs, q_half(ws));
        lemma_q_add_cong(rc, cs, q_half(ws));
        lemma_q_eq_trans(rep(new_lo), q_sub(rc, q_half(rw)), q_sub(rc, q_half(ws)));
        lemma_q_eq_trans(rep(new_lo), q_sub(rc, q_half(ws)), q_sub(cs, q_half(ws)));
        lemma_q_eq_trans(rep(new_hi), q_add(rc, q_half(rw)), q_add(rc, q_half(ws)));
        lemma_q_eq_trans(rep(new_hi), q_add(rc, q_half(ws)), q_add(cs, q_half(ws)));
    }
}

} // verus!


