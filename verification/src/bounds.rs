//! The visible rectangular window in data space, and its update
//! operations: expansion, merging, translation and zooming.

use vstd::prelude::*;
use crate::geom::PlotPoint;
use crate::scalar::{
    add_rel, lemma_q_div_cong, lemma_q_eq_trans, lemma_q_lt_cong, lemma_q_op_bounds,
    lemma_q_ops_wf, lemma_q_span_order, mul_rel, n_abs, n_clamped, n_max, n_min, n_neg, q_add,
    q_bounded, q_div, q_eq, q_half, q_int, q_lt, q_sub, q_wf, rep, sub_rel, PlotNum, Rat,
};

verus! {

/// The midpoint of two rationals.
pub open spec fn q_mid(a: (int, int), b: (int, int)) -> (int, int) {
    q_div(q_add(a, b), q_int(2))
}

/// What the midpoint computation returns for finite inputs: the exact
/// midpoint when representable, with small inputs always representable.
pub open spec fn mid_rel(a: PlotNum, b: PlotNum, r: PlotNum) -> bool {
    &&& (r is Fin ==> (a is Fin && b is Fin))
    &&& (a is Fin && b is Fin) ==> {
        &&& (r is Fin || r is NotANum)
        &&& (r is Fin ==> q_eq(rep(r), q_mid(rep(a), rep(b))))
        &&& ((q_bounded(rep(a), 0x4000) && q_bounded(rep(b), 0x4000)) ==> (r is Fin && q_bounded(
            rep(r),
            0x4000_0000,
        )))
    }
}

/// What `[x - w/2, x + w/2]` yields: exact endpoints when representable,
/// small inputs always representable, and an ordered interval for a
/// positive span.
pub open spec fn span_rel(x: PlotNum, w: PlotNum, lo: PlotNum, hi: PlotNum) -> bool {
    &&& ((lo is Fin || hi is Fin) ==> (x is Fin && w is Fin))
    &&& (x is Fin && w is Fin) ==> {
        &&& (lo is Fin || lo is NotANum)
        &&& (hi is Fin || hi is NotANum)
        &&& (lo is Fin ==> q_eq(rep(lo), q_sub(rep(x), q_half(rep(w)))))
        &&& (hi is Fin ==> q_eq(rep(hi), q_add(rep(x), q_half(rep(w)))))
        &&& ((q_bounded(rep(x), 0x4000_0000) && q_bounded(rep(w), 0x4000_0000)) ==> (lo is Fin
            && hi is Fin))
        &&& ((lo is Fin && hi is Fin && q_lt(q_int(0), rep(w))) ==> q_lt(rep(lo), rep(hi)))
    }
}

/// What one zoomed coordinate yields: `c + (m - c) / f`, never finite for
/// a zero zoom factor, and exact when finite.
pub open spec fn zoom_coord_rel(m: PlotNum, c: PlotNum, f: PlotNum, r: PlotNum) -> bool {
    &&& ((f matches PlotNum::Fin(q) && q.num == 0) ==> !(r is Fin))
    &&& ((m is Fin && c is Fin && f is Fin && r is Fin) ==> q_eq(
        rep(r),
        q_add(q_div(q_sub(rep(m), rep(c)), rep(f)), rep(c)),
    ))
    &&& ((m is Fin && c is Fin && (f matches PlotNum::Fin(q) && q.num != 0) && q_bounded(
        rep(m),
        0x4000,
    ) && q_bounded(rep(c), 0x4000) && q_bounded(rep(f), 0x4000)) ==> r is Fin)
}

/// What zooming all four coordinates about `c` yields.
pub open spec fn zoomed_rel(
    b0: PlotBounds,
    f: (PlotNum, PlotNum),
    c: PlotPoint,
    b1: PlotBounds,
) -> bool {
    &&& zoom_coord_rel(b0.min_x, c.x, f.0, b1.min_x)
    &&& zoom_coord_rel(b0.max_x, c.x, f.0, b1.max_x)
    &&& zoom_coord_rel(b0.min_y, c.y, f.1, b1.min_y)
    &&& zoom_coord_rel(b0.max_y, c.y, f.1, b1.max_y)
}

/// What translating the x range by `d` yields: ignored when `d` is not
/// finite; otherwise both x endpoints shifted and every coordinate
/// clamped into the finite range.
pub open spec fn translate_x_rel(b0: PlotBounds, d: PlotNum, b1: PlotBounds) -> bool {
    &&& (!(d is Fin) ==> b1 == b0)
    &&& (d is Fin ==> {
        &&& shift_clamp_rel(b0.min_x, d, b1.min_x)
        &&& shift_clamp_rel(b0.max_x, d, b1.max_x)
        &&& b1.min_y == n_clamped(b0.min_y)
        &&& b1.max_y == n_clamped(b0.max_y)
    })
}

/// What translating the y range by `d` yields.
pub open spec fn translate_y_rel(b0: PlotBounds, d: PlotNum, b1: PlotBounds) -> bool {
    &&& (!(d is Fin) ==> b1 == b0)
    &&& (d is Fin ==> {
        &&& shift_clamp_rel(b0.min_y, d, b1.min_y)
        &&& shift_clamp_rel(b0.max_y, d, b1.max_y)
        &&& b1.min_x == n_clamped(b0.min_x)
        &&& b1.max_x == n_clamped(b0.max_x)
    })
}

/// What translating both ranges yields: the x translation followed by the
/// y translation.
pub open spec fn translated_rel(b0: PlotBounds, dx: PlotNum, dy: PlotNum, b2: PlotBounds) -> bool {
    exists|b1: PlotBounds|
        #![trigger translate_x_rel(b0, dx, b1)]
        b1.wf() && translate_x_rel(b0, dx, b1) && translate_y_rel(b1, dy, b2)
}

/// What padding the x range by `pad` yields: ignored when `pad` is not
/// finite; otherwise the x range widened on both sides and every
/// coordinate clamped into the finite range.
pub open spec fn expand_x_rel(b0: PlotBounds, pad: PlotNum, b1: PlotBounds) -> bool {
    &&& (!(pad is Fin) ==> b1 == b0)
    &&& (pad is Fin ==> {
        &&& unshift_clamp_rel(b0.min_x, pad, b1.min_x)
        &&& shift_clamp_rel(b0.max_x, pad, b1.max_x)
        &&& b1.min_y == n_clamped(b0.min_y)
        &&& b1.max_y == n_clamped(b0.max_y)
    })
}

/// What padding the y range by `pad` yields.
pub open spec fn expand_y_rel(b0: PlotBounds, pad: PlotNum, b1: PlotBounds) -> bool {
    &&& (!(pad is Fin) ==> b1 == b0)
    &&& (pad is Fin ==> {
        &&& unshift_clamp_rel(b0.min_y, pad, b1.min_y)
        &&& shift_clamp_rel(b0.max_y, pad, b1.max_y)
        &&& b1.min_x == n_clamped(b0.min_x)
        &&& b1.max_x == n_clamped(b0.max_x)
    })
}

/// What padding one axis by a fraction of its own extent yields: the pad
/// is the fraction times the extent (taken as at least zero), handed to
/// the corresponding expansion.
pub open spec fn margin_rel(
    b0: PlotBounds,
    fraction: PlotNum,
    horizontal: bool,
    b1: PlotBounds,
) -> bool {
    exists|ext: PlotNum, pad: PlotNum|
        #![trigger mul_rel(fraction, n_max(ext, PlotNum::Fin(Rat { num: 0i64, den: 1i64 })), pad)]
        {
            &&& ext.wf()
            &&& pad.wf()
            &&& sub_rel(
                if horizontal {
                    b0.max_x
                } else {
                    b0.max_y
                },
                if horizontal {
                    b0.min_x
                } else {
                    b0.min_y
                },
                ext,
            )
            &&& mul_rel(fraction, n_max(ext, PlotNum::Fin(Rat { num: 0i64, den: 1i64 })), pad)
            &&& (if horizontal {
                expand_x_rel(b0, pad, b1)
            } else {
                expand_y_rel(b0, pad, b1)
            })
        }
}

/// What adding a delta and clamping to the finite range yields.
pub open spec fn shift_clamp_rel(a: PlotNum, d: PlotNum, r: PlotNum) -> bool {
    exists|m: PlotNum| add_rel(a, d, m) && m.wf() && r == n_clamped(m)
}

/// What subtracting a pad and clamping to the finite range yields.
pub open spec fn unshift_clamp_rel(a: PlotNum, d: PlotNum, r: PlotNum) -> bool {
    exists|m: PlotNum| sub_rel(a, d, m) && m.wf() && r == n_clamped(m)
}

/// A 2D bounding box in data space: the range of data values shown.
#[derive(Clone, Copy, Debug)]
pub struct PlotBounds {
    pub min_x: PlotNum,
    pub min_y: PlotNum,
    pub max_x: PlotNum,
    pub max_y: PlotNum,
}

/// The midpoint of two finite coordinates: `(a + b) / 2`.
pub(crate) fn midpoint(a: PlotNum, b: PlotNum) -> (r: PlotNum)
    requires
        a.wf(),
        b.wf(),
    ensures
        r.wf(),
        mid_rel(a, b, r),
{
    let s = a.add_num(b);
    let r = s.div_num(PlotNum::from_int(2));
    proof {
        if a is Fin && b is Fin {
            let ra = rep(a);
            let rb = rep(b);
            lemma_q_ops_wf(ra, rb);
            if s is Fin {
                lemma_q_ops_wf(rep(s), q_int(2));
                if r is Fin {
                    lemma_q_div_cong(rep(s), q_add(ra, rb), q_int(2));
                    lemma_q_eq_trans(rep(r), q_div(rep(s), q_int(2)), q_mid(ra, rb));
                }
            }
            if q_bounded(ra, 0x4000) && q_bounded(rb, 0x4000) {
                lemma_q_op_bounds(ra, rb, 0x4000, 0x4000);
                assert(s is Fin);
                lemma_q_op_bounds(rep(s), q_int(2), 0x2000_0000, 2);
            }
        }
    }
    r
}

/// The interval of width `w` centered on `x`: `(x - w/2, x + w/2)`.
fn centered_interval(x: PlotNum, w: PlotNum) -> (r: (PlotNum, PlotNum))
    requires
        x.wf(),
        w.wf(),
    ensures
        r.0.wf(),
        r.1.wf(),
        span_rel(x, w, r.0, r.1),
{
    let h = w.div_num(PlotNum::from_int(2));
    let lo = x.sub_num(h);
    let hi = x.add_num(h);
    proof {
        if x is Fin && w is Fin {
            let rx = rep(x);
            let rw = rep(w);
            lemma_q_ops_wf(rw, q_int(2));
            if h is Fin {
                let rh = rep(h);
                lemma_q_ops_wf(rx, rh);
                lemma_q_ops_wf(rx, q_half(rw));
                if lo is Fin {
                    lemma_q_sub_half_cong(rx, rh, rw);
                    lemma_q_eq_trans(rep(lo), q_sub(rx, rh), q_sub(rx, q_half(rw)));
                }
                if hi is Fin {
                    lemma_q_add_half_cong(rx, rh, rw);
                    lemma_q_eq_trans(rep(hi), q_add(rx, rh), q_add(rx, q_half(rw)));
                }
                if lo is Fin && hi is Fin && q_lt(q_int(0), rw) {
                    lemma_q_lt_cong(q_int(0), q_int(0), rh, q_half(rw));
                    assert(q_lt(q_int(0), rh));
                    lemma_q_span_order(rx, rh);
                    lemma_q_lt_cong(q_sub(rx, rh), rep(lo), q_add(rx, rh), rep(hi));
                }
            }
            if q_bounded(rx, 0x4000_0000) && q_bounded(rw, 0x4000_0000) {
                lemma_q_op_bounds(rw, q_int(2), 0x4000_0000, 2);
                assert(h is Fin);
                lemma_q_op_bounds(rx, rep(h), 0x4000_0000, 0x8000_0000);
                assert(lo is Fin && hi is Fin);
            }
        }
    }
    (lo, hi)
}

/// The second operand of a subtraction may be replaced by a same-valued
/// pair.
#[verifier::rlimit(50)]
proof fn lemma_q_sub_half_cong(x: (int, int), h: (int, int), w: (int, int))
    by (nonlinear_arith)
    requires
        q_wf(x),
        q_wf(h),
        q_wf(w),
        q_eq(h, q_half(w)),
    ensures
        q_eq(q_sub(x, h), q_sub(x, q_half(w))),
{
}

/// The second operand of an addition may be replaced by a same-valued
/// pair.
#[verifier::rlimit(50)]
proof fn lemma_q_add_half_cong(x: (int, int), h: (int, int), w: (int, int))
    by (nonlinear_arith)
    requires
        q_wf(x),
        q_wf(h),
        q_wf(w),
        q_eq(h, q_half(w)),
    ensures
        q_eq(q_add(x, h), q_add(x, q_half(w))),
{
}

/// One zoomed coordinate: `c + (m - c) / f`.
fn zoom_coord(m: PlotNum, c: PlotNum, f: PlotNum) -> (r: PlotNum)
    requires
        m.wf(),
        c.wf(),
        f.wf(),
    ensures
        r.wf(),
        zoom_coord_rel(m, c, f, r),
{
    let t = m.sub_num(c);
    let u = t.div_num(f);
    let r = u.add_num(c);
    proof {
        if m is Fin && c is Fin && f is Fin && rep(f).0 != 0 && q_bounded(rep(m), 0x4000)
            && q_bounded(rep(c), 0x4000) && q_bounded(rep(f), 0x4000) {
            lemma_q_ops_wf(rep(m), rep(c));
            lemma_q_op_bounds(rep(m), rep(c), 0x4000, 0x4000);
            assert(t is Fin);
            lemma_q_op_bounds(rep(t), rep(f), 0x2000_0000, 0x4000);
            assert(u is Fin);
            lemma_q_op_bounds(rep(u), rep(c), 0x8000_0000_0000, 0x4000);
            assert(r is Fin);
        }
        if m is Fin && c is Fin && f is Fin && r is Fin {
            let rm = rep(m);
            let rc = rep(c);
            let rf = rep(f);
            lemma_q_ops_wf(rm, rc);
            assert(t is Fin);
            assert(u is Fin);
            if rf.0 != 0 {
                lemma_q_ops_wf(rep(t), rf);
                lemma_q_ops_wf(q_sub(rm, rc), rf);
                lemma_q_div_cong(rep(t), q_sub(rm, rc), rf);
                lemma_q_eq_trans(rep(u), q_div(rep(t), rf), q_div(q_sub(rm, rc), rf));
                crate::scalar::lemma_q_add_cong(rep(u), q_div(q_sub(rm, rc), rf), rc);
                lemma_q_ops_wf(rep(u), rc);
                lemma_q_ops_wf(q_div(q_sub(rm, rc), rf), rc);
                lemma_q_eq_trans(
                    rep(r),
                    q_add(rep(u), rc),
                    q_add(q_div(q_sub(rm, rc), rf), rc),
                );
            }
        }
    }
    r
}

impl PlotBounds {
    /// Well-formedness of all four coordinates.
    pub open spec fn wf(self) -> bool {
        &&& self.min_x.wf()
        &&& self.min_y.wf()
        &&& self.max_x.wf()
        &&& self.max_y.wf()
    }

    /// Both x coordinates are finite.
    pub open spec fn finite_x(self) -> bool {
        self.min_x is Fin && self.max_x is Fin
    }

    /// Both y coordinates are finite.
    pub open spec fn finite_y(self) -> bool {
        self.min_y is Fin && self.max_y is Fin
    }

    /// The x axis is valid: finite with positive width. On exact values a
    /// positive width is the same as `min < max`.
    pub open spec fn valid_x_spec(self) -> bool {
        self.finite_x() && q_lt(rep(self.min_x), rep(self.max_x))
    }

    /// The y axis is valid: finite with positive height.
    pub open spec fn valid_y_spec(self) -> bool {
        self.finite_y() && q_lt(rep(self.min_y), rep(self.max_y))
    }

    /// Both axes are valid.
    pub open spec fn valid_spec(self) -> bool {
        self.valid_x_spec() && self.valid_y_spec()
    }

    /// The empty sentinel: inverted infinite bounds, the identity for
    /// expansion and merging.
    pub fn nothing() -> (r: PlotBounds)
        ensures
            r == (PlotBounds {
                min_x: PlotNum::PosInf,
                min_y: PlotNum::PosInf,
                max_x: PlotNum::NegInf,
                max_y: PlotNum::NegInf,
            }),
    {
        PlotBounds {
            min_x: PlotNum::PosInf,
            min_y: PlotNum::PosInf,
            max_x: PlotNum::NegInf,
            max_y: PlotNum::NegInf,
        }
    }

    /// Bounds from the two corners.
    pub fn from_min_max(min: PlotPoint, max: PlotPoint) -> (r: PlotBounds)
        requires
            min.wf(),
            max.wf(),
        ensures
            r == (PlotBounds { min_x: min.x, min_y: min.y, max_x: max.x, max_y: max.y }),
    {
        PlotBounds { min_x: min.x, min_y: min.y, max_x: max.x, max_y: max.y }
    }

    /// The minimum corner.
    pub fn min(&self) -> (r: PlotPoint)
        ensures
            r == (PlotPoint { x: self.min_x, y: self.min_y }),
    {
        PlotPoint { x: self.min_x, y: self.min_y }
    }

    /// The maximum corner.
    pub fn max(&self) -> (r: PlotPoint)
        ensures
            r == (PlotPoint { x: self.max_x, y: self.max_y }),
    {
        PlotPoint { x: self.max_x, y: self.max_y }
    }

    /// Symmetric bounds `[-half_extent, half_extent]` on both axes.
    pub fn new_symmetrical(half_extent: PlotNum) -> (r: PlotBounds)
        requires
            half_extent.wf(),
        ensures
            r.wf(),
            r.min_x == n_neg(half_extent),
            r.min_y == n_neg(half_extent),
            r.max_x == half_extent,
            r.max_y == half_extent,
    {
        let neg = half_extent.neg_num();
        PlotBounds { min_x: neg, min_y: neg, max_x: half_extent, max_y: half_extent }
    }

    /// Whether all coordinates are finite.
    pub fn is_finite(&self) -> (r: bool)
        ensures
            r == (self.finite_x() && self.finite_y()),
    {
        self.min_x.is_finite() && self.min_y.is_finite() && self.max_x.is_finite()
            && self.max_y.is_finite()
    }

    /// Whether the x coordinates are finite.
    pub fn is_finite_x(&self) -> (r: bool)
        ensures
            r == self.finite_x(),
    {
        self.min_x.is_finite() && self.max_x.is_finite()
    }

    /// Whether the y coordinates are finite.
    pub fn is_finite_y(&self) -> (r: bool)
        ensures
            r == self.finite_y(),
    {
        self.min_y.is_finite() && self.max_y.is_finite()
    }

    /// Whether both axes are finite with positive extent.
    pub fn is_valid(&self) -> (r: bool)
        requires
            self.wf(),
        ensures
            r == self.valid_spec(),
    {
        self.is_valid_x() && self.is_valid_y()
    }

    /// Whether the x axis is finite with positive width.
    pub fn is_valid_x(&self) -> (r: bool)
        requires
            self.wf(),
        ensures
            r == self.valid_x_spec(),
    {
        self.is_finite_x() && self.min_x.lt(self.max_x)
    }

    /// Whether the y axis is finite with positive height.
    pub fn is_valid_y(&self) -> (r: bool)
        requires
            self.wf(),
        ensures
            r == self.valid_y_spec(),
    {
        self.is_finite_y() && self.min_y.lt(self.max_y)
    }

    /// The width: `max_x - min_x`.
    pub fn width(&self) -> (r: PlotNum)
        requires
            self.wf(),
        ensures
            r.wf(),
            sub_rel(self.max_x, self.min_x, r),
    {
        self.max_x.sub_num(self.min_x)
    }

    /// The height: `max_y - min_y`.
    pub fn height(&self) -> (r: PlotNum)
        requires
            self.wf(),
        ensures
            r.wf(),
            sub_rel(self.max_y, self.min_y, r),
    {
        self.max_y.sub_num(self.min_y)
    }

    /// The center point of the bounds.
    pub fn center(&self) -> (r: PlotPoint)
        requires
            self.wf(),
        ensures
            r.wf(),
            mid_rel(self.min_x, self.max_x, r.x),
            mid_rel(self.min_y, self.max_y, r.y),
    {
        PlotPoint {
            x: midpoint(self.min_x, self.max_x),
            y: midpoint(self.min_y, self.max_y),
        }
    }

    /// Expand to include the given point.
    pub fn extend_with(&mut self, value: &PlotPoint)
        requires
            old(self).wf(),
            value.wf(),
        ensures
            final(self).wf(),
            final(self).min_x == n_min(old(self).min_x, value.x),
            final(self).max_x == n_max(old(self).max_x, value.x),
            final(self).min_y == n_min(old(self).min_y, value.y),
            final(self).max_y == n_max(old(self).max_y, value.y),
    {
        self.extend_with_x(value.x);
        self.extend_with_y(value.y);
    }

    /// Expand to include the given x coordinate.
    pub fn extend_with_x(&mut self, x: PlotNum)
        requires
            old(self).wf(),
            x.wf(),
        ensures
            final(self).wf(),
            final(self).min_x == n_min(old(self).min_x, x),
            final(self).max_x == n_max(old(self).max_x, x),
            final(self).min_y == old(self).min_y,
            final(self).max_y == old(self).max_y,
    {
        self.min_x = self.min_x.min_num(x);
        self.max_x = self.max_x.max_num(x);
    }

    /// Expand to include the given y coordinate.
    pub fn extend_with_y(&mut self, y: PlotNum)
        requires
            old(self).wf(),
            y.wf(),
        ensures
            final(self).wf(),
            final(self).min_y == n_min(old(self).min_y, y),
            final(self).max_y == n_max(old(self).max_y, y),
            final(self).min_x == old(self).min_x,
            final(self).max_x == old(self).max_x,
    {
        self.min_y = self.min_y.min_num(y);
        self.max_y = self.max_y.max_num(y);
    }

    /// Clamp every coordinate into the finite representable range.
    fn clamp_all_to_finite(&mut self)
        requires
            old(self).wf(),
        ensures
            final(self).wf(),
            final(self).min_x == n_clamped(old(self).min_x),
            final(self).max_x == n_clamped(old(self).max_x),
            final(self).min_y == n_clamped(old(self).min_y),
            final(self).max_y == n_clamped(old(self).max_y),
    {
        self.min_x = self.min_x.clamp_to_finite();
        self.max_x = self.max_x.clamp_to_finite();
        self.min_y = self.min_y.clamp_to_finite();
        self.max_y = self.max_y.clamp_to_finite();
    }

    /// Pad the x axis on both sides by `pad` (finite pads only), clamping
    /// into the finite range.
    pub fn expand_x(&mut self, pad: PlotNum)
        requires
            old(self).wf(),
            pad.wf(),
        ensures
            final(self).wf(),
            expand_x_rel(*old(self), pad, *final(self)),
    {
        if pad.is_finite() {
            let lo = self.min_x.sub_num(pad);
            let hi = self.max_x.add_num(pad);
            self.min_x = lo;
            self.max_x = hi;
            self.clamp_all_to_finite();
            proof {
                assert(unshift_clamp_rel(old(self).min_x, pad, self.min_x));
                assert(shift_clamp_rel(old(self).max_x, pad, self.max_x));
            }
        }
    }

    /// Pad the y axis on both sides by `pad` (finite pads only), clamping
    /// into the finite range.
    pub fn expand_y(&mut self, pad: PlotNum)
        requires
            old(self).wf(),
            pad.wf(),
        ensures
            final(self).wf(),
            expand_y_rel(*old(self), pad, *final(self)),
    {
        if pad.is_finite() {
            let lo = self.min_y.sub_num(pad);
            let hi = self.max_y.add_num(pad);
            self.min_y = lo;
            self.max_y = hi;
            self.clamp_all_to_finite();
            proof {
                assert(unshift_clamp_rel(old(self).min_y, pad, self.min_y));
                assert(shift_clamp_rel(old(self).max_y, pad, self.max_y));
            }
        }
    }

    /// Merge the x range of `other` into these bounds.
    pub fn merge_x(&mut self, other: &PlotBounds)
        requires
            old(self).wf(),
            other.wf(),
        ensures
            final(self).wf(),
            final(self).min_x == n_min(old(self).min_x, other.min_x),
            final(self).max_x == n_max(old(self).max_x, other.max_x),
            final(self).min_y == old(self).min_y,
            final(self).max_y == old(self).max_y,
    {
        self.min_x = self.min_x.min_num(other.min_x);
        self.max_x = self.max_x.max_num(other.max_x);
    }

    /// Merge the y range of `other` into these bounds.
    pub fn merge_y(&mut self, other: &PlotBounds)
        requires
            old(self).wf(),
            other.wf(),
        ensures
            final(self).wf(),
            final(self).min_y == n_min(old(self).min_y, other.min_y),
            final(self).max_y == n_max(old(self).max_y, other.max_y),
            final(self).min_x == old(self).min_x,
            final(self).max_x == old(self).max_x,
    {
        self.min_y = self.min_y.min_num(other.min_y);
        self.max_y = self.max_y.max_num(other.max_y);
    }

    /// Merge both ranges of `other` into these bounds.
    pub fn merge(&mut self, other: &PlotBounds)
        requires
            old(self).wf(),
            other.wf(),
        ensures
            final(self).wf(),
            final(self).min_x == n_min(old(self).min_x, other.min_x),
            final(self).max_x == n_max(old(self).max_x, other.max_x),
            final(self).min_y == n_min(old(self).min_y, other.min_y),
            final(self).max_y == n_max(old(self).max_y, other.max_y),
    {
        self.merge_x(other);
        self.merge_y(other);
    }

    /// Replace the x range with that of `other`.
    pub fn set_x(&mut self, other: &PlotBounds)
        requires
            old(self).wf(),
            other.wf(),
        ensures
            final(self).wf(),
            final(self).min_x == other.min_x,
            final(self).max_x == other.max_x,
            final(self).min_y == old(self).min_y,
            final(self).max_y == old(self).max_y,
    {
        self.min_x = other.min_x;
        self.max_x = other.max_x;
    }

    /// Replace the x range with the interval of width `width` centered on
    /// `x`.
    pub fn set_x_center_width(&mut self, x: PlotNum, width: PlotNum)
        requires
            old(self).wf(),
            x.wf(),
            width.wf(),
        ensures
            final(self).wf(),
            span_rel(x, width, final(self).min_x, final(self).max_x),
            final(self).min_y == old(self).min_y,
            final(self).max_y == old(self).max_y,
    {
        let (lo, hi) = centered_interval(x, width);
        self.min_x = lo;
        self.max_x = hi;
    }

    /// Replace the y range with that of `other`.
    pub fn set_y(&mut self, other: &PlotBounds)
        requires
            old(self).wf(),
            other.wf(),
        ensures
            final(self).wf(),
            final(self).min_y == other.min_y,
            final(self).max_y == other.max_y,
            final(self).min_x == old(self).min_x,
            final(self).max_x == old(self).max_x,
    {
        self.min_y = other.min_y;
        self.max_y = other.max_y;
    }

    /// Replace the y range with the interval of height `height` centered
    /// on `y`.
    pub fn set_y_center_height(&mut self, y: PlotNum, height: PlotNum)
        requires
            old(self).wf(),
            y.wf(),
            height.wf(),
        ensures
            final(self).wf(),
            span_rel(y, height, final(self).min_y, final(self).max_y),
            final(self).min_x == old(self).min_x,
            final(self).max_x == old(self).max_x,
    {
        let (lo, hi) = centered_interval(y, height);
        self.min_y = lo;
        self.max_y = hi;
    }

    /// Translate the x range by a finite delta, clamping into the finite
    /// range; a non-finite delta is ignored.
    pub fn translate_x(&mut self, delta: PlotNum)
        requires
            old(self).wf(),
            delta.wf(),
        ensures
            final(self).wf(),
            translate_x_rel(*old(self), delta, *final(self)),
    {
        if delta.is_finite() {
            let lo = self.min_x.add_num(delta);
            let hi = self.max_x.add_num(delta);
            self.min_x = lo;
            self.max_x = hi;
            self.clamp_all_to_finite();
            proof {
                assert(shift_clamp_rel(old(self).min_x, delta, self.min_x));
                assert(shift_clamp_rel(old(self).max_x, delta, self.max_x));
            }
        }
    }

    /// Translate the y range by a finite delta, clamping into the finite
    /// range; a non-finite delta is ignored.
    pub fn translate_y(&mut self, delta: PlotNum)
        requires
            old(self).wf(),
            delta.wf(),
        ensures
            final(self).wf(),
            translate_y_rel(*old(self), delta, *final(self)),
    {
        if delta.is_finite() {
            let lo = self.min_y.add_num(delta);
            let hi = self.max_y.add_num(delta);
            self.min_y = lo;
            self.max_y = hi;
            self.clamp_all_to_finite();
            proof {
                assert(shift_clamp_rel(old(self).min_y, delta, self.min_y));
                assert(shift_clamp_rel(old(self).max_y, delta, self.max_y));
            }
        }
    }

    /// Translate both ranges: first x, then y.
    pub fn translate(&mut self, delta: (PlotNum, PlotNum))
        requires
            old(self).wf(),
            delta.0.wf(),
            delta.1.wf(),
        ensures
            final(self).wf(),
            translated_rel(*old(self), delta.0, delta.1, *final(self)),
    {
        self.translate_x(delta.0);
        let ghost mid = *self;
        self.translate_y(delta.1);
        proof {
            assert(translate_x_rel(*old(self), delta.0, mid));
            assert(translate_y_rel(mid, delta.1, *self));
        }
    }

    /// Scale each axis around `center` by the reciprocal of its zoom
    /// factor.
    pub fn zoom(&mut self, zoom_factor: (PlotNum, PlotNum), center: PlotPoint)
        requires
            old(self).wf(),
            zoom_factor.0.wf(),
            zoom_factor.1.wf(),
            center.wf(),
        ensures
            final(self).wf(),
            zoomed_rel(*old(self), zoom_factor, center, *final(self)),
    {
        self.min_x = zoom_coord(self.min_x, center.x, zoom_factor.0);
        self.max_x = zoom_coord(self.max_x, center.x, zoom_factor.0);
        self.min_y = zoom_coord(self.min_y, center.y, zoom_factor.1);
        self.max_y = zoom_coord(self.max_y, center.y, zoom_factor.1);
    }

    /// Pad the x axis by the given fraction of its width (taken as at
    /// least zero).
    pub fn add_relative_margin_x(&mut self, margin_fraction: PlotNum)
        requires
            old(self).wf(),
            margin_fraction.wf(),
        ensures
            final(self).wf(),
            margin_rel(*old(self), margin_fraction, true, *final(self)),
    {
        let w0 = self.width();
        let w = w0.max_num(PlotNum::zero());
        let pad = margin_fraction.mul_num(w);
        self.expand_x(pad);
        proof {
            assert(sub_rel(old(self).max_x, old(self).min_x, w0));
            assert(mul_rel(margin_fraction, n_max(w0, PlotNum::Fin(Rat { num: 0i64, den: 1i64 })), pad));
            assert(margin_rel(*old(self), margin_fraction, true, *self));
        }
    }

    /// Pad the y axis by the given fraction of its height (taken as at
    /// least zero).
    pub fn add_relative_margin_y(&mut self, margin_fraction: PlotNum)
        requires
            old(self).wf(),
            margin_fraction.wf(),
        ensures
            final(self).wf(),
            margin_rel(*old(self), margin_fraction, false, *final(self)),
    {
        let h0 = self.height();
        let h = h0.max_num(PlotNum::zero());
        let pad = margin_fraction.mul_num(h);
        self.expand_y(pad);
        proof {
            assert(sub_rel(old(self).max_y, old(self).min_y, h0));
            assert(mul_rel(margin_fraction, n_max(h0, PlotNum::Fin(Rat { num: 0i64, den: 1i64 })), pad));
            assert(margin_rel(*old(self), margin_fraction, false, *self));
        }
    }

    /// The x range as `(min, max)`.
    pub fn range_x(&self) -> (r: (PlotNum, PlotNum))
        ensures
            r.0 == self.min_x,
            r.1 == self.max_x,
    {
        (self.min_x, self.max_x)
    }

    /// The y range as `(min, max)`.
    pub fn range_y(&self) -> (r: (PlotNum, PlotNum))
        ensures
            r.0 == self.min_y,
            r.1 == self.max_y,
    {
        (self.min_y, self.max_y)
    }

    /// Make the x range symmetric about zero, keeping the larger absolute
    /// endpoint as the new half-extent.
    pub fn make_x_symmetrical(&mut self)
        requires
            old(self).wf(),
        ensures
            final(self).wf(),
            final(self).max_x == n_max(n_abs(old(self).min_x), n_abs(old(self).max_x)),
            final(self).min_x == n_neg(final(self).max_x),
            final(self).min_y == old(self).min_y,
            final(self).max_y == old(self).max_y,
    {
        let x_abs = self.min_x.abs_num().max_num(self.max_x.abs_num());
        self.min_x = x_abs.neg_num();
        self.max_x = x_abs;
    }

    /// Make the y range symmetric about zero, keeping the larger absolute
    /// endpoint as the new half-extent.
    pub fn make_y_symmetrical(&mut self)
        requires
            old(self).wf(),
        ensures
            final(self).wf(),
            final(self).max_y == n_max(n_abs(old(self).min_y), n_abs(old(self).max_y)),
            final(self).min_y == n_neg(final(self).max_y),
            final(self).min_x == old(self).min_x,
            final(self).max_x == old(self).max_x,
    {
        let y_abs = self.min_y.abs_num().max_num(self.max_y.abs_num());
        self.min_y = y_abs.neg_num();
        self.max_y = y_abs;
    }
}

} // verus!
