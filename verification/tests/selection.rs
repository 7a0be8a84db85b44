use snapdragin::geometry::{ScreenPoint, ScreenRect};
use snapdragin::grid::{GridCell, GridSpec};
use snapdragin::selection::{GridArea, GridSelection, SelectionTracker};

#[test]
fn normalizes_selection_from_any_direction() {
    let selection = GridSelection::new(GridCell::new(3, 2), GridCell::new(1, 0));

    assert_eq!(
        selection.area(),
        GridArea {
            left: 1,
            top: 0,
            right: 4,
            bottom: 3
        }
    );
}

#[test]
fn converts_selection_to_screen_rect() {
    let grid = GridSpec::new(4, 4).unwrap();
    let monitor = ScreenRect::new(0, 0, 800, 400);
    let selection = GridSelection::new(GridCell::new(1, 1), GridCell::new(2, 3));

    assert_eq!(
        selection.screen_rect(grid, monitor),
        Some(ScreenRect::new(200, 100, 400, 300))
    );
}

#[test]
fn rejects_area_outside_grid() {
    let grid = GridSpec::new(2, 2).unwrap();
    let monitor = ScreenRect::new(0, 0, 200, 200);
    let selection = GridSelection::new(GridCell::new(1, 1), GridCell::new(2, 2));

    assert_eq!(selection.screen_rect(grid, monitor), None);
}

#[test]
fn tracker_begins_updates_and_finishes_selection() {
    let grid = GridSpec::new(4, 4).unwrap();
    let monitor = ScreenRect::new(0, 0, 400, 400);
    let mut tracker = SelectionTracker::new(grid, monitor);

    assert_eq!(
        tracker.begin(ScreenPoint::new(25, 25)),
        Some(GridSelection::new(GridCell::new(0, 0), GridCell::new(0, 0)))
    );
    assert_eq!(
        tracker.update(ScreenPoint::new(399, 399)),
        Some(GridSelection::new(GridCell::new(0, 0), GridCell::new(3, 3)))
    );
    assert_eq!(
        tracker.finish(),
        Some(GridSelection::new(GridCell::new(0, 0), GridCell::new(3, 3)))
    );
    assert_eq!(tracker.current_selection(), None);
}

#[test]
fn tracker_ignores_updates_before_begin() {
    let grid = GridSpec::new(4, 4).unwrap();
    let monitor = ScreenRect::new(0, 0, 400, 400);
    let mut tracker = SelectionTracker::new(grid, monitor);

    assert_eq!(tracker.update(ScreenPoint::new(300, 300)), None);
    assert_eq!(tracker.current_selection(), None);
}

#[test]
fn tracker_clamps_outside_points() {
    let grid = GridSpec::new(4, 4).unwrap();
    let monitor = ScreenRect::new(0, 0, 400, 400);
    let mut tracker = SelectionTracker::new(grid, monitor);

    tracker.begin(ScreenPoint::new(-100, -100));

    assert_eq!(
        tracker.update(ScreenPoint::new(800, 800)),
        Some(GridSelection::new(GridCell::new(0, 0), GridCell::new(3, 3)))
    );
}

#[test]
fn reversed_selection_covers_same_rect() {
    let grid = GridSpec::new(4, 4).unwrap();
    let monitor = ScreenRect::new(0, 0, 800, 400);
    let forward = GridSelection::new(GridCell::new(1, 1), GridCell::new(2, 3));
    let backward = GridSelection::new(GridCell::new(2, 3), GridCell::new(1, 1));
    assert_eq!(forward.area(), backward.area());
    assert_eq!(forward.screen_rect(grid, monitor), backward.screen_rect(grid, monitor));
}

#[test]
fn single_cell_selection_matches_cell_rect() {
    let grid = GridSpec::new(3, 1).unwrap();
    let monitor = ScreenRect::new(0, 0, 10, 10);
    let cell = GridCell::new(2, 0);
    let selection = GridSelection::new(cell, cell);
    assert_eq!(selection.screen_rect(grid, monitor), grid.cell_rect(monitor, cell));
    assert_eq!(selection.screen_rect(grid, monitor), Some(ScreenRect::new(6, 0, 4, 10)));
}

#[test]
fn area_saturates_at_largest_index() {
    let selection = GridSelection::new(GridCell::new(u16::MAX, 0), GridCell::new(0, u16::MAX));
    assert_eq!(
        GridArea::from_selection(selection),
        GridArea { left: 0, top: 0, right: u16::MAX, bottom: u16::MAX }
    );
    let empty_area = GridArea { left: 2, top: 0, right: 2, bottom: 1 };
    assert_eq!(
        empty_area.screen_rect(GridSpec::new(4, 4).unwrap(), ScreenRect::new(0, 0, 10, 10)),
        None
    );
}

#[test]
fn tracker_on_empty_monitor_selects_nothing() {
    let grid = GridSpec::new(4, 4).unwrap();
    let mut tracker = SelectionTracker::new(grid, ScreenRect::new(0, 0, 0, 400));
    assert_eq!(tracker.begin(ScreenPoint::new(5, 5)), None);
    assert_eq!(tracker.current_selection(), None);
    let mut tracker = SelectionTracker::new(grid, ScreenRect::new(0, 0, 400, 400));
    tracker.begin(ScreenPoint::new(150, 250));
    tracker.clear();
    assert_eq!(tracker.current_selection(), None);
    assert_eq!(tracker.finish(), None);
}

#[test]
fn clearing_twice_is_clearing_once() {
    let grid = GridSpec::new(4, 2).unwrap();
    let monitor = ScreenRect::new(0, 0, 400, 200);
    let mut tracker = SelectionTracker::new(grid, monitor);
    tracker.begin(ScreenPoint::new(10, 10));
    tracker.update(ScreenPoint::new(390, 190));
    tracker.clear();
    let once = tracker;
    tracker.clear();
    assert_eq!(tracker, once);
    assert_eq!(tracker, SelectionTracker::new(grid, monitor));
    let mut finished = SelectionTracker::new(grid, monitor);
    finished.begin(ScreenPoint::new(10, 10));
    assert!(finished.finish().is_some());
    assert_eq!(finished, SelectionTracker::new(grid, monitor));
}
