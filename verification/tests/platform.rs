use snapdragin::grid::{GridError, GridSpec};
use snapdragin::platform::{ExternalWindowId, MonitorId, PlatformError, WindowInfo};
use snapdragin::geometry::ScreenRect;

#[test]
fn window_ids_are_opaque_raw_values() {
    let id = ExternalWindowId::new(42);

    assert_eq!(id.raw(), 42);
}

#[test]
fn platform_errors_are_displayable() {
    let error = PlatformError::unsupported("wayland_global_window_move");

    assert_eq!(
        error.to_string(),
        "platform feature is unsupported: wayland_global_window_move"
    );
}

#[test]
fn monitor_ids_keep_their_raw_value() {
    assert_eq!(MonitorId::new(7).raw(), 7);
    assert_ne!(MonitorId::new(7), MonitorId::new(8));
}

#[test]
fn every_platform_error_has_its_message() {
    assert_eq!(
        PlatformError::permission_denied("accessibility").to_string(),
        "platform permission denied: accessibility"
    );
    assert_eq!(PlatformError::WindowNotFound.to_string(), "window not found");
    assert_eq!(PlatformError::MonitorNotFound.to_string(), "monitor not found");
    assert_eq!(
        PlatformError::AlreadyRunning { service: "input hook" }.to_string(),
        "input hook is already running"
    );
    assert_eq!(
        PlatformError::NotRunning { service: "input hook" }.to_string(),
        "input hook is not running"
    );
    assert_eq!(
        PlatformError::backend("SetWindowPos failed".to_string()).to_string(),
        "SetWindowPos failed"
    );
}

#[test]
fn window_info_keeps_its_parts() {
    let frame = ScreenRect::new(1, 2, 3, 4);
    let info = WindowInfo::new(
        ExternalWindowId::new(9),
        Some("Editor".to_string()),
        frame,
        Some(MonitorId::new(1)),
    );
    assert_eq!(info.id.raw(), 9);
    assert_eq!(info.title.as_deref(), Some("Editor"));
    assert_eq!(info.frame, frame);
    assert_eq!(info.monitor, Some(MonitorId::new(1)));
}

#[test]
fn grid_errors_are_displayable() {
    assert_eq!(
        GridError::ZeroColumns.to_string(),
        "grid must have at least one column"
    );
    assert_eq!(GridError::ZeroRows.to_string(), "grid must have at least one row");
    assert_eq!(
        GridSpec::new(65, 1).unwrap_err().to_string(),
        "grid has 65 columns, but the maximum is 64"
    );
    assert_eq!(
        GridSpec::new(1, 100).unwrap_err().to_string(),
        "grid has 100 rows, but the maximum is 64"
    );
}

#[test]
fn ids_are_equal_exactly_when_their_raw_values_are() {
    assert_eq!(ExternalWindowId::new(5), ExternalWindowId::new(5));
    assert_ne!(ExternalWindowId::new(5), ExternalWindowId::new(6));
    assert_eq!(GridSpec::clamped(0, 99), GridSpec::new(1, 64).unwrap());
    let g = GridSpec::clamped(300, 0);
    assert_eq!(GridSpec::new(g.columns(), g.rows()), Ok(g));
}
