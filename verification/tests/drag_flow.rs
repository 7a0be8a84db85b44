use snapdragin::app_state::{
    begin_drag, current_snap, grid_for_monitor, handle_mouse_message, monitor_for_point,
    needs_native_monitor, point_distance_to_rect_squared, take_queued_snap, take_settle_snap,
    queue_snap_settle, AppState, Effect, MouseOutcome, PendingSnap, WM_LBUTTONDOWN, WM_LBUTTONUP,
    WM_MOUSEMOVE, WM_RBUTTONDOWN, WM_RBUTTONUP,
};
use snapdragin::geometry::{ScreenPoint, ScreenRect};
use snapdragin::settings::{MonitorConfig, SettingsData};

fn monitor(device: &str, rect: ScreenRect, columns: u16, rows: u16) -> MonitorConfig {
    MonitorConfig {
        device_name: device.to_string(),
        display_name: device.to_string(),
        monitor_rect: rect,
        work_rect: rect,
        columns,
        rows,
    }
}

fn settings() -> SettingsData {
    SettingsData {
        monitors: vec![
            monitor("LEFT", ScreenRect::new(0, 0, 800, 400), 4, 2),
            monitor("RIGHT", ScreenRect::new(800, 0, 600, 600), 3, 3),
        ],
        grid_color: "#FFFFFF11".to_string(),
        selection_color: "#00FFFF11".to_string(),
        selection_border_color: "#00FFFF44".to_string(),
        run_on_startup: false,
        is_dark_mode: true,
    }
}

fn left() -> MonitorConfig {
    monitor("LEFT", ScreenRect::new(0, 0, 800, 400), 2, 2)
}

fn right() -> MonitorConfig {
    monitor("RIGHT", ScreenRect::new(800, 0, 600, 600), 2, 2)
}

#[test]
fn a_fresh_state_shows_the_first_monitors_grid() {
    let state = AppState::new(100, 7, settings(), true);
    assert_eq!(state.grid.columns(), 4);
    assert_eq!(state.grid.rows(), 2);
    assert!(state.left_button_down);
    assert!(!state.dragging);
    assert_eq!(state.settings_dpi, 96);
}

#[test]
fn right_press_while_holding_left_asks_to_check_the_target() {
    let mut state = AppState::new(100, 0, settings(), false);
    let (outcome, effects) =
        handle_mouse_message(&mut state, WM_LBUTTONDOWN, ScreenPoint::new(5, 5), true, None);
    assert_eq!(outcome, MouseOutcome::Done(false));
    assert!(effects.is_empty());
    assert!(state.left_button_down);

    let (outcome, _) =
        handle_mouse_message(&mut state, WM_RBUTTONDOWN, ScreenPoint::new(5, 5), true, None);
    assert_eq!(outcome, MouseOutcome::CheckDragTarget);

    let (outcome, _) =
        handle_mouse_message(&mut state, WM_RBUTTONDOWN, ScreenPoint::new(5, 5), false, None);
    assert_eq!(outcome, MouseOutcome::Done(false));
    assert!(!state.left_button_down);
}

#[test]
fn a_drag_selects_cells_and_queues_one_snap_at_a_time() {
    let mut state = AppState::new(100, 0, settings(), true);
    let effects = begin_drag(&mut state, 555, ScreenPoint::new(50, 50), left());
    assert_eq!(
        effects,
        vec![
            Effect::ShowOverlay(ScreenRect::new(0, 0, 800, 400)),
            Effect::PostApplySnap(100)
        ]
    );
    assert!(state.dragging);
    assert_eq!(state.grid.columns(), 4);
    assert_eq!(
        state.queued_snap,
        Some(PendingSnap { target: 555, rect: ScreenRect::new(0, 0, 200, 200) })
    );
    assert!(needs_native_monitor(&state, WM_MOUSEMOVE));

    let (outcome, effects) = handle_mouse_message(
        &mut state,
        WM_MOUSEMOVE,
        ScreenPoint::new(650, 350),
        true,
        Some(left()),
    );
    assert_eq!(outcome, MouseOutcome::Done(false));
    assert_eq!(effects, vec![Effect::RedrawOverlay]);
    assert_eq!(
        current_snap(&state),
        Some(PendingSnap { target: 555, rect: ScreenRect::new(0, 0, 800, 400) })
    );

    let taken = take_queued_snap(&mut state);
    assert_eq!(
        taken,
        Some(PendingSnap { target: 555, rect: ScreenRect::new(0, 0, 800, 400) })
    );
    assert!(!state.snap_apply_pending);
    assert_eq!(queue_snap_settle(&mut state, taken.unwrap()), 100);
    assert_eq!(take_settle_snap(&mut state), taken);
    assert_eq!(take_settle_snap(&mut state), None);

    let (outcome, effects) = handle_mouse_message(
        &mut state,
        WM_LBUTTONUP,
        ScreenPoint::new(650, 350),
        false,
        Some(left()),
    );
    assert_eq!(outcome, MouseOutcome::Done(false));
    assert_eq!(effects, vec![Effect::ReleaseCapture, Effect::PostApplySnap(100)]);
    assert!(!state.dragging);
    assert_eq!(state.tracker, None);
    assert_eq!(state.selection, None);
    assert_eq!(state.target_hwnd, 0);
}

#[test]
fn moving_to_another_monitor_restarts_the_selection_there() {
    let mut state = AppState::new(100, 0, settings(), true);
    begin_drag(&mut state, 9, ScreenPoint::new(10, 10), left());
    take_queued_snap(&mut state);
    let (_, effects) = handle_mouse_message(
        &mut state,
        WM_MOUSEMOVE,
        ScreenPoint::new(1000, 100),
        true,
        Some(right()),
    );
    assert_eq!(
        effects,
        vec![
            Effect::ShowOverlay(ScreenRect::new(800, 0, 600, 600)),
            Effect::PostApplySnap(100)
        ]
    );
    assert_eq!(state.grid.columns(), 3);
    assert_eq!(state.monitor_device_name, "RIGHT");
    assert_eq!(
        state.queued_snap,
        Some(PendingSnap { target: 9, rect: ScreenRect::new(1000, 0, 200, 200) })
    );
}

#[test]
fn a_right_click_while_dragging_ends_it_and_swallows_the_release() {
    let mut state = AppState::new(100, 0, settings(), true);
    state.overlay_hwnd = 42;
    begin_drag(&mut state, 9, ScreenPoint::new(10, 10), left());
    let (outcome, effects) = handle_mouse_message(
        &mut state,
        WM_RBUTTONDOWN,
        ScreenPoint::new(10, 10),
        true,
        Some(left()),
    );
    assert_eq!(outcome, MouseOutcome::Done(true));
    assert_eq!(effects, vec![Effect::HideOverlay(42), Effect::ReleaseCapture]);
    assert!(!state.dragging);
    assert!(state.suppress_right_up);

    let (outcome, _) =
        handle_mouse_message(&mut state, WM_RBUTTONUP, ScreenPoint::new(10, 10), true, None);
    assert_eq!(outcome, MouseOutcome::Done(true));
    assert!(!state.suppress_right_up);

    let (outcome, _) =
        handle_mouse_message(&mut state, WM_RBUTTONUP, ScreenPoint::new(10, 10), true, None);
    assert_eq!(outcome, MouseOutcome::Done(false));
}

#[test]
fn releasing_left_outside_a_drag_only_records_the_button() {
    let mut state = AppState::new(100, 0, settings(), true);
    let (outcome, effects) =
        handle_mouse_message(&mut state, WM_LBUTTONUP, ScreenPoint::new(1, 1), false, None);
    assert_eq!(outcome, MouseOutcome::Done(false));
    assert!(effects.is_empty());
    assert!(!state.left_button_down);
    assert!(!needs_native_monitor(&state, WM_MOUSEMOVE));
}

#[test]
fn saved_monitors_are_found_by_point_and_device() {
    let state = AppState::new(100, 0, settings(), false);
    let found = monitor_for_point(&state, ScreenPoint::new(900, 10)).unwrap();
    assert_eq!(found.device_name, "RIGHT");
    let nearest = monitor_for_point(&state, ScreenPoint::new(-50, 10)).unwrap();
    assert_eq!(nearest.device_name, "LEFT");
    let grid = grid_for_monitor(&state, &right());
    assert_eq!((grid.columns(), grid.rows()), (3, 3));
    let unknown = grid_for_monitor(&state, &monitor("OTHER", ScreenRect::new(0, 0, 1, 1), 5, 6));
    assert_eq!((unknown.columns(), unknown.rows()), (5, 6));
}

#[test]
fn distance_to_a_rect_is_zero_inside_and_squared_outside() {
    let rect = ScreenRect::new(0, 0, 10, 10);
    assert_eq!(point_distance_to_rect_squared(ScreenPoint::new(5, 5), rect), 0);
    assert_eq!(point_distance_to_rect_squared(ScreenPoint::new(12, 5), rect), 9);
    assert_eq!(point_distance_to_rect_squared(ScreenPoint::new(-3, -4), rect), 25);
    assert_eq!(
        point_distance_to_rect_squared(ScreenPoint::new(i32::MIN, i32::MIN), ScreenRect::new(i32::MAX, i32::MAX, 1, 1)),
        i64::MAX
    );
}

#[test]
fn the_drag_monitor_is_the_one_the_system_reports() {
    let mut state = AppState::new(100, 0, settings(), true);
    let unsaved = monitor("NEW", ScreenRect::new(0, 0, 800, 400), 5, 5);
    begin_drag(&mut state, 3, ScreenPoint::new(10, 10), unsaved);
    assert_eq!(state.monitor_device_name, "NEW");
    assert_eq!((state.grid.columns(), state.grid.rows()), (4, 2));
}

#[test]
fn pointer_moves_outside_a_drag_change_nothing() {
    let mut state = AppState::new(100, 0, settings(), false);
    let (outcome, effects) =
        handle_mouse_message(&mut state, WM_MOUSEMOVE, ScreenPoint::new(300, 300), false, None);
    assert_eq!(outcome, MouseOutcome::Done(false));
    assert!(effects.is_empty());
    assert!(!state.dragging);
    assert_eq!(state.queued_snap, None);
    assert_eq!(state.selection, None);
}
