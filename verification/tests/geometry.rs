use compositor::metrics::{Dimensions, GridMetrics, GridPoint, PixelPoint};
use compositor::units::{clamp_add_cells, clamp_cells, clamp_coord};

#[test]
fn cell_size_round_trips_through_the_metrics() {
    let m = GridMetrics::from_cell_size(8, 16);
    assert_eq!(m.cell_size(), Dimensions { width: 8, height: 16 });
}

#[test]
fn degenerate_and_oversized_cell_measurements_are_clamped() {
    let m = GridMetrics::from_cell_size(0, 1_000_000);
    assert_eq!(m.cell_size(), Dimensions { width: 1, height: 4096 });
}

#[test]
fn grid_to_pixel_scales_each_axis() {
    let m = GridMetrics::from_cell_size(10, 20);
    // One and a half columns, three rows, in subunits.
    let p = m.grid_to_pixel(GridPoint { x: 1500, y: 3000 });
    assert_eq!(p, PixelPoint { x: 15_000, y: 60_000 });
}

#[test]
fn pixel_grid_round_trip_is_exact() {
    // Round-trip: pixel_to_grid(grid_to_pixel(p)) == p, exactly, for
    // positive, negative and fractional positions.
    let m = GridMetrics::from_cell_size(7, 13);
    for &(x, y) in &[(0i64, 0i64), (1500, 3000), (-2500, 999), (123_456, -654_321)] {
        let p = GridPoint { x, y };
        let back = m.pixel_to_grid(m.grid_to_pixel(p));
        assert_eq!(back, p);
    }
}

#[test]
fn to_pixel_dimensions_multiplies_by_the_cell() {
    let m = GridMetrics::from_cell_size(8, 16);
    let d = m.to_pixel_dimensions(Dimensions { width: 10, height: 2 });
    assert_eq!(d, Dimensions { width: 80, height: 32 });
}

#[test]
fn coordinate_clamps_hold_the_limits() {
    assert_eq!(clamp_coord(5), 5);
    assert_eq!(clamp_coord(i64::MAX), 2_000_000_000);
    assert_eq!(clamp_coord(i64::MIN), -2_000_000_000);
    assert_eq!(clamp_cells(4097), 4096);
    assert_eq!(clamp_cells(3), 3);
    assert_eq!(clamp_add_cells(500, 2), 2500);
    assert_eq!(clamp_add_cells(0, -3), -3000);
    assert_eq!(clamp_add_cells(1_999_999_999, 10), 2_000_000_000);
}
