//! Geometry primitives: points in data space and screen space, screen
//! rectangles, and per-axis flag pairs.

use vstd::prelude::*;
use crate::scalar::{n_max, n_min, sub_rel, PlotNum};

verus! {

/// A point in data space.
#[derive(Clone, Copy, Debug)]
pub struct PlotPoint {
    pub x: PlotNum,
    pub y: PlotNum,
}

impl PlotPoint {
    /// Well-formedness of both coordinates.
    pub open spec fn wf(self) -> bool {
        self.x.wf() && self.y.wf()
    }

    /// A point from its coordinates.
    pub fn new(x: PlotNum, y: PlotNum) -> (r: PlotPoint)
        requires
            x.wf(),
            y.wf(),
        ensures
            r == (PlotPoint { x, y }),
    {
        PlotPoint { x, y }
    }
}

/// A point in screen space (y grows downward).
#[derive(Clone, Copy, Debug)]
pub struct ScreenPoint {
    pub x: PlotNum,
    pub y: PlotNum,
}

impl ScreenPoint {
    /// Well-formedness of both coordinates.
    pub open spec fn wf(self) -> bool {
        self.x.wf() && self.y.wf()
    }

    /// A point from its coordinates.
    pub fn new(x: PlotNum, y: PlotNum) -> (r: ScreenPoint)
        requires
            x.wf(),
            y.wf(),
        ensures
            r == (ScreenPoint { x, y }),
    {
        ScreenPoint { x, y }
    }
}

/// A pair of per-axis booleans.
#[derive(Clone, Copy, Debug, PartialEq, Eq, Structural)]
pub struct AxisBools {
    pub x: bool,
    pub y: bool,
}

impl AxisBools {
    /// A pair from its flags.
    pub fn new(x: bool, y: bool) -> (r: AxisBools)
        ensures
            r == (AxisBools { x, y }),
    {
        AxisBools { x, y }
    }
}

/// An axis-aligned rectangle in screen space: `min` is the left/top corner,
/// `max` the right/bottom corner.
#[derive(Clone, Copy, Debug)]
pub struct ScreenRect {
    pub min: ScreenPoint,
    pub max: ScreenPoint,
}

impl ScreenRect {
    /// Well-formedness: finite corners in order (non-negative extents).
    pub open spec fn wf(self) -> bool {
        &&& self.min.wf()
        &&& self.max.wf()
        &&& self.min.x is Fin
        &&& self.min.y is Fin
        &&& self.max.x is Fin
        &&& self.max.y is Fin
        &&& crate::scalar::n_le(self.min.x, self.max.x)
        &&& crate::scalar::n_le(self.min.y, self.max.y)
    }

    /// A rectangle from two corners.
    pub fn new(min: ScreenPoint, max: ScreenPoint) -> (r: ScreenRect)
        requires
            min.wf(),
            max.wf(),
        ensures
            r == (ScreenRect { min, max }),
    {
        ScreenRect { min, max }
    }

    /// A rectangle from the two screen positions `a` and `b`, in whichever
    /// order: the corner-wise minimum and maximum.
    pub fn from_two_pos(a: ScreenPoint, b: ScreenPoint) -> (r: ScreenRect)
        requires
            a.wf(),
            b.wf(),
        ensures
            r.min.x == n_min(a.x, b.x),
            r.min.y == n_min(a.y, b.y),
            r.max.x == n_max(a.x, b.x),
            r.max.y == n_max(a.y, b.y),
    {
        ScreenRect {
            min: ScreenPoint { x: a.x.min_num(b.x), y: a.y.min_num(b.y) },
            max: ScreenPoint { x: a.x.max_num(b.x), y: a.y.max_num(b.y) },
        }
    }

    /// The left edge.
    pub fn left(&self) -> (r: PlotNum)
        ensures
            r == self.min.x,
    {
        self.min.x
    }

    /// The right edge.
    pub fn right(&self) -> (r: PlotNum)
        ensures
            r == self.max.x,
    {
        self.max.x
    }

    /// The top edge (the smaller screen y).
    pub fn top(&self) -> (r: PlotNum)
        ensures
            r == self.min.y,
    {
        self.min.y
    }

    /// The bottom edge (the larger screen y).
    pub fn bottom(&self) -> (r: PlotNum)
        ensures
            r == self.max.y,
    {
        self.max.y
    }

    /// The width: right minus left.
    pub fn width(&self) -> (r: PlotNum)
        requires
            self.min.wf(),
            self.max.wf(),
        ensures
            r.wf(),
            sub_rel(self.max.x, self.min.x, r),
    {
        self.max.x.sub_num(self.min.x)
    }

    /// The height: bottom minus top.
    pub fn height(&self) -> (r: PlotNum)
        requires
            self.min.wf(),
            self.max.wf(),
        ensures
            r.wf(),
            sub_rel(self.max.y, self.min.y, r),
    {
        self.max.y.sub_num(self.min.y)
    }
}

} // verus!
