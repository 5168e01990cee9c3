//! Grid-to-pixel geometry.
//!
//! `GridMetrics` is the single source of truth for the pixel size of one
//! character cell.  The cell size comes from the embedding's font
//! measurement capability; this module only converts between fractional
//! grid coordinates and fractional pixel coordinates, both held as
//! fixed-point subunits.

use vstd::prelude::*;

use crate::units::{coord_ok, div_toward_zero, COORD_LIMIT, MAX_CELL_PX, MAX_GRID_CELLS};

verus! {

/// Largest magnitude, in pixel subunits, of a coordinate that
/// `pixel_to_grid` accepts: `COORD_LIMIT * MAX_CELL_PX`.
pub const PIXEL_LIMIT: i64 = 8_192_000_000_000;

/// A width/height pair, in whole cells or whole pixels depending on use.
#[derive(Clone, Copy, Debug, PartialEq, Eq, Structural)]
pub struct Dimensions {
    pub width: u64,
    pub height: u64,
}

/// A fractional grid position, in subunits of a cell; `x` counts
/// columns, `y` counts rows.
#[derive(Clone, Copy, Debug, PartialEq, Eq, Structural)]
pub struct GridPoint {
    pub x: i64,
    pub y: i64,
}

/// A fractional pixel position, in subunits of a pixel.
#[derive(Clone, Copy, Debug, PartialEq, Eq, Structural)]
pub struct PixelPoint {
    pub x: i64,
    pub y: i64,
}

/// An axis-aligned pixel rectangle, in subunits of a pixel.
#[derive(Clone, Copy, Debug, PartialEq, Eq, Structural)]
pub struct PixelRect {
    pub left: i64,
    pub top: i64,
    pub width: i64,
    pub height: i64,
}

impl PixelRect {
    /// Whether the point `(x, y)` lies inside this rectangle.
    pub open spec fn contains_spec(&self, x: int, y: int) -> bool {
        &&& self.left <= x < self.left + self.width
        &&& self.top <= y < self.top + self.height
    }

    /// Whether the point `(x, y)` lies inside this rectangle.
    pub fn contains(&self, x: i64, y: i64) -> (r: bool)
        requires
            0 <= self.width,
            0 <= self.height,
            self.left + self.width <= i64::MAX,
            self.top + self.height <= i64::MAX,
        ensures
            r == self.contains_spec(x as int, y as int),
    {
        self.left <= x && x < self.left + self.width && self.top <= y && y < self.top + self.height
    }
}

/// A rectangle whose edges stay inside the convertible pixel range, so
/// point-containment tests on it cannot overflow.
pub open spec fn region_in_range(r: PixelRect) -> bool {
    &&& -(PIXEL_LIMIT as int) <= r.left <= PIXEL_LIMIT as int
    &&& -(PIXEL_LIMIT as int) <= r.top <= PIXEL_LIMIT as int
    &&& 0 <= r.width <= (MAX_GRID_CELLS * MAX_CELL_PX) as int * (crate::units::SUBUNIT as int)
    &&& 0 <= r.height <= (MAX_GRID_CELLS * MAX_CELL_PX) as int * (crate::units::SUBUNIT as int)
}

/// One grid coordinate scaled to pixels.
pub open spec fn grid_to_pixel_axis(v: int, cell: int) -> int {
    v * cell
}

/// One pixel coordinate scaled back to the grid.
pub open spec fn pixel_to_grid_axis(v: int, cell: int) -> int {
    div_toward_zero(v, cell)
}

/// Scaling a grid coordinate to pixels and back is the identity: the
/// grid-to-pixel map loses nothing.
pub proof fn lemma_grid_pixel_round_trip(x: int, y: int, cw: int, ch: int)
    requires
        1 <= cw,
        1 <= ch,
    ensures
        pixel_to_grid_axis(grid_to_pixel_axis(x, cw), cw) == x,
        pixel_to_grid_axis(grid_to_pixel_axis(y, ch), ch) == y,
{
    lemma_scale_unscale(x, cw);
    lemma_scale_unscale(y, ch);
}

proof fn lemma_scale_unscale(v: int, cell: int)
    requires
        1 <= cell,
    ensures
        div_toward_zero(v * cell, cell) == v,
{
    vstd::arithmetic::div_mod::lemma_div_multiples_vanish(v, cell);
    assert(cell * v == v * cell) by (nonlinear_arith);
    if v * cell < 0 {
        vstd::arithmetic::mul::lemma_mul_unary_negation(v, cell);
        vstd::arithmetic::div_mod::lemma_div_multiples_vanish(-v, cell);
        assert(cell * (-v) == (-v) * cell) by (nonlinear_arith);
    }
}

/// The pixel size of one character cell, as measured by the embedding's
/// font capability and clamped to this crate's limits.
#[derive(Clone, Copy, Debug, PartialEq, Eq, Structural)]
pub struct GridMetrics {
    pub font_dimensions: Dimensions,
}

impl GridMetrics {
    /// Cell edges are at least one pixel and bounded, so every
    /// conversion below stays in range.
    pub open spec fn wf(&self) -> bool {
        &&& 1 <= self.font_dimensions.width <= MAX_CELL_PX
        &&& 1 <= self.font_dimensions.height <= MAX_CELL_PX
    }

    /// Adopt a measured cell size, pulling degenerate or oversized
    /// measurements into the supported range.
    pub fn from_cell_size(width_px: u64, height_px: u64) -> (r: GridMetrics)
        ensures
            r.wf(),
            1 <= width_px <= MAX_CELL_PX ==> r.font_dimensions.width == width_px,
            1 <= height_px <= MAX_CELL_PX ==> r.font_dimensions.height == height_px,
    {
        let w: u64 = if width_px < 1 {
            1
        } else if width_px > MAX_CELL_PX {
            MAX_CELL_PX
        } else {
            width_px
        };
        let h: u64 = if height_px < 1 {
            1
        } else if height_px > MAX_CELL_PX {
            MAX_CELL_PX
        } else {
            height_px
        };
        GridMetrics { font_dimensions: Dimensions { width: w, height: h } }
    }

    /// The cell size in whole pixels.
    pub fn cell_size(&self) -> (r: Dimensions)
        ensures
            r == self.font_dimensions,
    {
        self.font_dimensions
    }

    /// A fractional grid position scaled to a fractional pixel position.
    pub fn grid_to_pixel(&self, p: GridPoint) -> (r: PixelPoint)
        requires
            self.wf(),
            coord_ok(p.x as int),
            coord_ok(p.y as int),
        ensures
            r.x == grid_to_pixel_axis(p.x as int, self.font_dimensions.width as int),
            r.y == grid_to_pixel_axis(p.y as int, self.font_dimensions.height as int),
            -PIXEL_LIMIT <= r.x <= PIXEL_LIMIT,
            -PIXEL_LIMIT <= r.y <= PIXEL_LIMIT,
    {
        proof {
            lemma_scaled_axis_in_range(p.x as int, self.font_dimensions.width as int);
            lemma_scaled_axis_in_range(p.y as int, self.font_dimensions.height as int);
        }
        PixelPoint {
            x: p.x * (self.font_dimensions.width as i64),
            y: p.y * (self.font_dimensions.height as i64),
        }
    }

    /// A fractional pixel position scaled back to the grid, rounding the
    /// fractional cell count toward zero.
    pub fn pixel_to_grid(&self, p: PixelPoint) -> (r: GridPoint)
        requires
            self.wf(),
            -PIXEL_LIMIT <= p.x <= PIXEL_LIMIT,
            -PIXEL_LIMIT <= p.y <= PIXEL_LIMIT,
        ensures
            r.x == pixel_to_grid_axis(p.x as int, self.font_dimensions.width as int),
            r.y == pixel_to_grid_axis(p.y as int, self.font_dimensions.height as int),
    {
        GridPoint {
            x: unscale_axis(p.x, self.font_dimensions.width),
            y: unscale_axis(p.y, self.font_dimensions.height),
        }
    }

    /// A size in whole cells scaled to a size in whole pixels.
    pub fn to_pixel_dimensions(&self, d: Dimensions) -> (r: Dimensions)
        requires
            self.wf(),
            d.width <= MAX_GRID_CELLS,
            d.height <= MAX_GRID_CELLS,
        ensures
            r.width == d.width * self.font_dimensions.width,
            r.height == d.height * self.font_dimensions.height,
            r.width <= MAX_GRID_CELLS * MAX_CELL_PX,
            r.height <= MAX_GRID_CELLS * MAX_CELL_PX,
    {
        proof {
            vstd::arithmetic::mul::lemma_mul_upper_bound(
                d.width as int,
                MAX_GRID_CELLS as int,
                self.font_dimensions.width as int,
                MAX_CELL_PX as int,
            );
            vstd::arithmetic::mul::lemma_mul_upper_bound(
                d.height as int,
                MAX_GRID_CELLS as int,
                self.font_dimensions.height as int,
                MAX_CELL_PX as int,
            );
        }
        Dimensions {
            width: d.width * self.font_dimensions.width,
            height: d.height * self.font_dimensions.height,
        }
    }
}

proof fn lemma_scaled_axis_in_range(v: int, cell: int)
    requires
        coord_ok(v),
        1 <= cell <= MAX_CELL_PX,
    ensures
        -(PIXEL_LIMIT as int) <= v * cell <= PIXEL_LIMIT as int,
{
    assert(-(COORD_LIMIT as int) * (MAX_CELL_PX as int) <= v * cell <= (COORD_LIMIT as int) * (
    MAX_CELL_PX as int)) by (nonlinear_arith)
        requires
            -(COORD_LIMIT as int) <= v <= COORD_LIMIT as int,
            1 <= cell <= MAX_CELL_PX as int,
    ;
}

/// Divide one pixel axis by the cell edge, rounding toward zero.
fn unscale_axis(v: i64, cell: u64) -> (r: i64)
    requires
        1 <= cell,
        -PIXEL_LIMIT <= v <= PIXEL_LIMIT,
    ensures
        r == pixel_to_grid_axis(v as int, cell as int),
{
    if v >= 0 {
        ((v as u64) / cell) as i64
    } else {
        let q: u64 = ((-v) as u64) / cell;
        -(q as i64)
    }
}

} // verus!
