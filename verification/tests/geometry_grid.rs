use snapdragin::geometry::{ScreenPoint, ScreenRect};
use snapdragin::grid::{GridCell, GridError, GridSpec};

#[test]
fn contains_uses_half_open_bounds() {
    let rect = ScreenRect::new(10, 20, 30, 40);

    assert!(rect.contains(ScreenPoint::new(10, 20)));
    assert!(rect.contains(ScreenPoint::new(39, 59)));
    assert!(!rect.contains(ScreenPoint::new(40, 59)));
    assert!(!rect.contains(ScreenPoint::new(39, 60)));
}

#[test]
fn empty_rect_contains_no_points() {
    let rect = ScreenRect::new(0, 0, 0, 10);

    assert!(!rect.contains(ScreenPoint::new(0, 0)));
}

#[test]
fn rejects_invalid_grid_dimensions() {
    assert_eq!(GridSpec::new(0, 4), Err(GridError::ZeroColumns));
    assert_eq!(GridSpec::new(4, 0), Err(GridError::ZeroRows));
    assert!(matches!(
        GridSpec::new(65, 4),
        Err(GridError::TooManyColumns {
            actual: 65,
            max: 64
        })
    ));
    assert!(matches!(
        GridSpec::new(4, 65),
        Err(GridError::TooManyRows {
            actual: 65,
            max: 64
        })
    ));
}

#[test]
fn clamps_grid_dimensions() {
    assert_eq!(GridSpec::clamped(0, 99), GridSpec::new(1, 64).unwrap());
}

#[test]
fn maps_points_to_cells() {
    let grid = GridSpec::new(4, 2).unwrap();
    let monitor = ScreenRect::new(0, 0, 400, 200);

    assert_eq!(
        grid.cell_at(monitor, ScreenPoint::new(0, 0)),
        Some(GridCell::new(0, 0))
    );
    assert_eq!(
        grid.cell_at(monitor, ScreenPoint::new(399, 199)),
        Some(GridCell::new(3, 1))
    );
    assert_eq!(grid.cell_at(monitor, ScreenPoint::new(400, 199)), None);
}

#[test]
fn handles_negative_monitor_coordinates() {
    let grid = GridSpec::new(2, 2).unwrap();
    let monitor = ScreenRect::new(-800, -200, 800, 600);

    assert_eq!(
        grid.cell_at(monitor, ScreenPoint::new(-1, 399)),
        Some(GridCell::new(1, 1))
    );
}

#[test]
fn cell_rects_cover_uneven_monitor_width_without_gaps() {
    let grid = GridSpec::new(3, 1).unwrap();
    let monitor = ScreenRect::new(0, 0, 10, 10);

    assert_eq!(
        grid.cell_rect(monitor, GridCell::new(0, 0)),
        Some(ScreenRect::new(0, 0, 3, 10))
    );
    assert_eq!(
        grid.cell_rect(monitor, GridCell::new(1, 0)),
        Some(ScreenRect::new(3, 0, 3, 10))
    );
    assert_eq!(
        grid.cell_rect(monitor, GridCell::new(2, 0)),
        Some(ScreenRect::new(6, 0, 4, 10))
    );
}

#[test]
fn clamped_cell_at_keeps_selection_on_monitor() {
    let grid = GridSpec::new(4, 4).unwrap();
    let monitor = ScreenRect::new(100, 100, 400, 400);

    assert_eq!(
        grid.cell_at_clamped(monitor, ScreenPoint::new(900, -500)),
        Some(GridCell::new(3, 0))
    );
}

#[test]
fn rect_geometry_reports_edges_and_emptiness() {
    let rect = ScreenRect::new(-5, 7, 10, 0);
    assert_eq!(rect.right(), 5);
    assert_eq!(rect.bottom(), 7);
    assert!(rect.is_empty());
    let wide = ScreenRect::new(i32::MAX, i32::MIN, u32::MAX, 1);
    assert_eq!(wide.right(), i64::from(i32::MAX) + i64::from(u32::MAX));
    assert!(!wide.is_empty());
}

#[test]
fn valid_grid_dimensions_are_kept() {
    let grid = GridSpec::new(64, 1).unwrap();
    assert_eq!(grid.columns(), 64);
    assert_eq!(grid.rows(), 1);
    assert_eq!(GridSpec::clamped(7, 3), GridSpec::new(7, 3).unwrap());
    assert_eq!(GridSpec::new(0, 0), Err(GridError::ZeroColumns));
    assert_eq!(
        GridSpec::new(65, 65),
        Err(GridError::TooManyColumns { actual: 65, max: 64 })
    );
}

#[test]
fn cell_lookup_off_monitor_and_on_empty_monitor() {
    let grid = GridSpec::new(2, 2).unwrap();
    assert_eq!(grid.cell_at(ScreenRect::new(0, 0, 0, 100), ScreenPoint::new(0, 0)), None);
    assert_eq!(
        grid.cell_at_clamped(ScreenRect::new(0, 0, 100, 0), ScreenPoint::new(0, 0)),
        None
    );
    assert_eq!(
        grid.cell_at_clamped(ScreenRect::new(0, 0, 100, 100), ScreenPoint::new(i32::MIN, i32::MAX)),
        Some(GridCell::new(0, 1))
    );
}

#[test]
fn cell_rect_rejects_cells_outside_grid_and_unrepresentable_rects() {
    let grid = GridSpec::new(2, 2).unwrap();
    let monitor = ScreenRect::new(0, 0, 100, 100);
    assert_eq!(grid.cell_rect(monitor, GridCell::new(2, 0)), None);
    assert_eq!(grid.cell_rect(ScreenRect::new(0, 0, 0, 0), GridCell::new(0, 0)), None);
    let far = ScreenRect::new(i32::MAX, 0, 100, 100);
    assert_eq!(grid.cell_rect(far, GridCell::new(1, 0)), None);
    assert_eq!(
        grid.cell_rect(far, GridCell::new(0, 1)),
        Some(ScreenRect::new(i32::MAX, 50, 50, 50))
    );
    assert_eq!(grid.contains_cell(GridCell::new(1, 1)), true);
    assert_eq!(grid.contains_cell(GridCell::new(1, 2)), false);
}

#[test]
fn clamped_grids_agree_with_validated_ones() {
    for (columns, rows) in [(1, 1), (3, 7), (64, 64)] {
        let grid = GridSpec::new(columns, rows).unwrap();
        assert_eq!(grid, GridSpec::clamped(columns, rows));
    }
}

#[test]
fn cells_of_an_evenly_divided_monitor_hold_their_points() {
    let grid = GridSpec::new(4, 2).unwrap();
    let monitor = ScreenRect::new(-400, 100, 400, 200);
    for (x, y) in [(-400, 100), (-301, 199), (-300, 200), (-1, 299)] {
        let point = ScreenPoint::new(x, y);
        let cell = grid.cell_at(monitor, point).unwrap();
        assert!(grid.cell_rect(monitor, cell).unwrap().contains(point));
    }
}

#[test]
fn cells_of_an_uneven_monitor_reach_their_points() {
    let grid = GridSpec::new(3, 1).unwrap();
    let monitor = ScreenRect::new(0, 0, 10, 1);
    let point = ScreenPoint::new(3, 0);
    let cell = grid.cell_at(monitor, point).unwrap();
    assert_eq!(cell, GridCell::new(0, 0));
    let rect = grid.cell_rect(monitor, cell).unwrap();
    assert_eq!(rect, ScreenRect::new(0, 0, 3, 1));
    assert!(!rect.contains(point));
    assert_eq!(rect.right(), 3);
}
