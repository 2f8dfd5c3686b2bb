//! Geometric core of an interactive 2D plot: exact coordinate arithmetic,
//! the bounds/transform engine mapping data space to screen space, and the
//! axis tick/label layout decisions.
//!
//! Coordinates are extended rationals ([`scalar::PlotNum`]): exact fractions
//! plus infinities and a not-a-number value, mirroring how the surrounding
//! UI code treats degenerate numeric input. A host shell converts its own
//! numeric types at the boundary.

pub mod scalar;
pub mod geom;
pub mod bounds;
pub mod transform;
pub mod axis;
