//! The exact part of the map from pixel space to plane space.
//!
//! A pixel coordinate is mapped to a plane coordinate in two steps: first to
//! the ratio that says how far along the view's extent it lies, then, by the
//! caller and in the caller's arithmetic, to `min + (max - min) * ratio`.
//! This module computes the ratios. The horizontal ratio grows with the
//! column; the vertical ratio shrinks as the row grows, because row 0 is the
//! top of the buffer and the top of the buffer is the largest `y` of the
//! view.

use crate::pixel::PixelRect;
use vstd::prelude::*;

verus! {

/// The ratio `numer / denom`. A coordinate outside the buffer gives a ratio
/// below zero or above one, which extends the map linearly.
#[derive(Clone, Copy, Debug, PartialEq, Eq, Structural)]
pub struct Ratio {
    pub numer: i128,
    pub denom: usize,
}

impl Ratio {
    /// The ratio is zero: the lower bound of the extent.
    pub open spec fn is_zero(self) -> bool {
        self.denom > 0 && self.numer == 0
    }

    /// The ratio is one: the upper bound of the extent.
    pub open spec fn is_one(self) -> bool {
        self.denom > 0 && self.numer == self.denom
    }

    /// `self <= other`, for ratios with positive denominators.
    pub open spec fn le(self, other: Ratio) -> bool {
        self.numer * other.denom <= other.numer * self.denom
    }

    /// `self < other`, for ratios with positive denominators.
    pub open spec fn lt(self, other: Ratio) -> bool {
        self.numer * other.denom < other.numer * self.denom
    }
}

/// The ratios of the four edges of a new view, each along the extent of the
/// current view on its axis.
#[derive(Clone, Copy, Debug, PartialEq, Eq, Structural)]
pub struct ViewRatios {
    /// Where the new `x_min` lies between the current `x_min` and `x_max`.
    pub left: Ratio,
    /// Where the new `x_max` lies between the current `x_min` and `x_max`.
    pub right: Ratio,
    /// Where the new `y_min` lies between the current `y_min` and `y_max`.
    pub bottom: Ratio,
    /// Where the new `y_max` lies between the current `y_min` and `y_max`.
    pub top: Ratio,
}

/// `px / width`.
pub open spec fn spec_horizontal_ratio(px: usize, width: usize) -> Ratio {
    Ratio { numer: px as i128, denom: width }
}

/// `(height - py) / height`.
pub open spec fn spec_vertical_ratio(py: usize, height: usize) -> Ratio {
    Ratio { numer: (height - py) as i128, denom: height }
}

/// The ratios of the four edges of the view that `rect` stands for.
pub open spec fn spec_selection_ratios(rect: PixelRect, width: usize, height: usize) -> ViewRatios {
    ViewRatios {
        left: spec_horizontal_ratio(rect.x_min, width),
        right: spec_horizontal_ratio(rect.x_max, width),
        bottom: spec_vertical_ratio(rect.y_max, height),
        top: spec_vertical_ratio(rect.y_min, height),
    }
}

/// How far column `px` lies along the horizontal extent of a view that is
/// `width` pixels wide: `px / width`.
pub fn horizontal_ratio(px: usize, width: usize) -> (ratio: Ratio)
    ensures
        ratio == spec_horizontal_ratio(px, width),
        ratio.numer == px,
        ratio.denom == width,
{
    Ratio { numer: px as i128, denom: width }
}

/// How far row `py` lies along the vertical extent of a view that is
/// `height` pixels high: `(height - py) / height`, counted from the bottom.
pub fn vertical_ratio(py: usize, height: usize) -> (ratio: Ratio)
    ensures
        ratio == spec_vertical_ratio(py, height),
        ratio.numer == height - py,
        ratio.denom == height,
{
    Ratio { numer: height as i128 - py as i128, denom: height }
}

/// The ratios of the view that a selected rectangle stands for: its left and
/// right columns give the new horizontal bounds, its lowest row on screen
/// (`y_max`) gives the new lower bound of `y` and its highest row (`y_min`)
/// the new upper bound.
pub fn selection_ratios(rect: &PixelRect, width: usize, height: usize) -> (ratios: ViewRatios)
    ensures
        ratios == spec_selection_ratios(*rect, width, height),
{
    ViewRatios {
        left: horizontal_ratio(rect.x_min, width),
        right: horizontal_ratio(rect.x_max, width),
        bottom: vertical_ratio(rect.y_max, height),
        top: vertical_ratio(rect.y_min, height),
    }
}

/// Column 0 lies at the lower bound of the horizontal extent and column
/// `width` at its upper bound.
pub proof fn lemma_horizontal_bounds(width: usize)
    requires
        width > 0,
    ensures
        spec_horizontal_ratio(0, width).is_zero(),
        spec_horizontal_ratio(width, width).is_one(),
{
}

/// A pixel of the buffer lies within the view: the ratios of a column below
/// `width` and of a row below `height` are at least zero and at most one.
pub proof fn lemma_ratios_within_view(px: usize, py: usize, width: usize, height: usize)
    requires
        px < width,
        py < height,
    ensures
        0 <= spec_horizontal_ratio(px, width).numer < spec_horizontal_ratio(px, width).denom,
        0 < spec_vertical_ratio(py, height).numer <= spec_vertical_ratio(py, height).denom,
{
}

/// The horizontal ratio does not decrease as the column grows, and grows
/// strictly where the column does.
pub proof fn lemma_horizontal_monotonic(a: usize, b: usize, width: usize)
    requires
        width > 0,
        a <= b,
    ensures
        spec_horizontal_ratio(a, width).le(spec_horizontal_ratio(b, width)),
        a < b ==> spec_horizontal_ratio(a, width).lt(spec_horizontal_ratio(b, width)),
{
    assert(a * width <= b * width) by (nonlinear_arith)
        requires
            a <= b,
    ;
    assert(a < b ==> a * width < b * width) by (nonlinear_arith)
        requires
            width > 0,
    ;
}

/// The vertical map is inverted: row 0 lies at the upper bound of the
/// vertical extent and row `height` at its lower bound.
pub proof fn lemma_vertical_inversion(height: usize)
    requires
        height > 0,
    ensures
        spec_vertical_ratio(0, height).is_one(),
        spec_vertical_ratio(height, height).is_zero(),
{
}

/// The vertical ratio does not grow as the row grows, and shrinks strictly
/// where the row grows.
pub proof fn lemma_vertical_antitonic(a: usize, b: usize, height: usize)
    requires
        height > 0,
        a <= b,
    ensures
        spec_vertical_ratio(b, height).le(spec_vertical_ratio(a, height)),
        a < b ==> spec_vertical_ratio(b, height).lt(spec_vertical_ratio(a, height)),
{
    assert((height - b) * height <= (height - a) * height) by (nonlinear_arith)
        requires
            a <= b,
    ;
    assert(a < b ==> (height - b) * height < (height - a) * height) by (nonlinear_arith)
        requires
            height > 0,
    ;
}

/// A selected rectangle with area stands for a view with area: its left
/// ratio is below its right ratio and its bottom ratio below its top ratio.
pub proof fn lemma_selection_keeps_order(rect: PixelRect, width: usize, height: usize)
    requires
        width > 0,
        height > 0,
        rect.well_formed(),
        !rect.spec_is_degenerate(),
    ensures
        spec_selection_ratios(rect, width, height).left.lt(
            spec_selection_ratios(rect, width, height).right,
        ),
        spec_selection_ratios(rect, width, height).bottom.lt(
            spec_selection_ratios(rect, width, height).top,
        ),
{
    lemma_horizontal_monotonic(rect.x_min, rect.x_max, width);
    lemma_vertical_antitonic(rect.y_min, rect.y_max, height);
}

} // verus!
