//! Fixed-point units and the numeric limits shared by the whole crate.
//!
//! Fractional grid and pixel coordinates are stored as `i64` counts of
//! thousandths (`SUBUNIT`), so that animation and geometry stay exact.

use vstd::prelude::*;

verus! {

/// Fixed-point scale: one grid cell (or one pixel) is this many subunits.
pub const SUBUNIT: i64 = 1000;

/// Largest magnitude, in subunits, a stored coordinate may have.
pub const COORD_LIMIT: i64 = 2_000_000_000;

/// Largest animation duration, in milliseconds, `advance` accepts.
pub const MAX_DURATION_MS: u64 = 600_000;

/// Largest cell edge, in whole pixels, the metrics accept.
pub const MAX_CELL_PX: u64 = 4096;

/// Largest number of grid rows or columns a window keeps.
pub const MAX_GRID_CELLS: u64 = 4096;

/// A coordinate that every stored position and scroll offset satisfies.
pub open spec fn coord_ok(v: int) -> bool {
    -(COORD_LIMIT as int) <= v <= COORD_LIMIT as int
}

/// What `clamp_coord` returns: the value pulled into the coordinate range.
pub open spec fn clamp_coord_spec(v: int) -> int {
    if v < -(COORD_LIMIT as int) {
        -(COORD_LIMIT as int)
    } else if v > COORD_LIMIT as int {
        COORD_LIMIT as int
    } else {
        v
    }
}

/// Clamp a raw coordinate from the outside protocol into the stored range.
pub fn clamp_coord(v: i64) -> (r: i64)
    ensures
        r == clamp_coord_spec(v as int),
        coord_ok(r as int),
{
    if v < -COORD_LIMIT {
        -COORD_LIMIT
    } else if v > COORD_LIMIT {
        COORD_LIMIT
    } else {
        v
    }
}

/// What `clamp_cells` returns: a cell count pulled into the supported
/// grid range.
pub open spec fn clamp_cells_spec(v: int) -> int {
    if v > MAX_GRID_CELLS as int {
        MAX_GRID_CELLS as int
    } else {
        v
    }
}

/// Clamp a commanded grid extent into the supported range; degenerate
/// (zero) extents stay as they are and mark a non-rendered window.
pub fn clamp_cells(v: u64) -> (r: u64)
    ensures
        r == clamp_cells_spec(v as int),
        r <= MAX_GRID_CELLS,
{
    if v > MAX_GRID_CELLS {
        MAX_GRID_CELLS
    } else {
        v
    }
}

/// Move a coordinate by a whole number of cells, clamping the result
/// into the stored range.
pub fn clamp_add_cells(base: i64, cells: i64) -> (r: i64)
    requires
        coord_ok(base as int),
    ensures
        r == clamp_coord_spec(base + cells * SUBUNIT),
        coord_ok(r as int),
{
    let v: i128 = (base as i128) + (cells as i128) * 1000;
    if v < -(COORD_LIMIT as i128) {
        -COORD_LIMIT
    } else if v > COORD_LIMIT as i128 {
        COORD_LIMIT
    } else {
        v as i64
    }
}

/// Integer division rounding toward zero, as the machine `/` computes it
/// on signed operands; defined only for a positive divisor.
pub open spec fn div_toward_zero(a: int, b: int) -> int
    recommends
        b > 0,
{
    if a >= 0 {
        a / b
    } else {
        -((-a) / b)
    }
}

} // verus!
