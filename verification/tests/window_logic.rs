use snapdragin::app_state::{AppState, MonitorEdit};
use snapdragin::color::RgbaColor;
use snapdragin::desktop::{
    com_init_outcome, dpi_compensated_rect, fallback_monitor_at, in_move_size_loop,
    menu_action, monitor_config_from_info, rect_center, target_window, window_size_arg,
    MenuAction, ID_EXIT, ID_SETTINGS, RPC_E_CHANGED_MODE,
};
use snapdragin::geometry::{ScreenPoint, ScreenRect};
use snapdragin::grid::GridSpec;
use snapdragin::overlay::{blend_overlay_pixel, draw_overlay_grid, draw_overlay_selection};
use snapdragin::settings::{MonitorConfig, SettingsData};
use snapdragin::settings_form::{
    apply_settings_form, color_dialog_start, controls_to_repaint, edit_number, edit_text,
    forget_settings_window, group_title_width, monitor_edit_ids, monitor_row_top,
    picked_color_text, refresh_settings, settings_palette, settings_text_color, target_default,
    target_edit, toggle_theme, read_valid_hex_color, MonitorReading, SettingsForm,
};
use snapdragin::color::rgb;
use snapdragin::wide::{copy_wide, decode_lossy, string_from_wide_z, wide};
use snapdragin::winmsg::{
    hiword, hiword_signed, live_setting_changed, loword_signed, normalized_dpi, point_lparam,
    push_unique_hwnd, rect_to_screen_rect, scale_value, scaled_rect, settings_click,
    swatch_hit, tray_event, unscale_value, ColorTarget, Rect, SettingsClick, BN_CLICKED,
    EN_CHANGE, ID_GRID_COLOR_EDIT, ID_MONITOR_EDIT_BASE, ID_RUN_STARTUP,
};

fn monitor(device: &str, columns: u16, rows: u16) -> MonitorConfig {
    MonitorConfig {
        device_name: device.to_string(),
        display_name: device.to_string(),
        monitor_rect: ScreenRect::new(0, 0, 100, 100),
        work_rect: ScreenRect::new(0, 0, 100, 100),
        columns,
        rows,
    }
}

fn state() -> AppState {
    AppState::new(
        1,
        0,
        SettingsData {
            monitors: vec![monitor("A", 2, 2), monitor("B", 3, 3)],
            grid_color: "#FFFFFF11".to_string(),
            selection_color: "#00FFFF11".to_string(),
            selection_border_color: "#00FFFF44".to_string(),
            run_on_startup: false,
            is_dark_mode: true,
        },
        false,
    )
}

fn units(text: &str) -> Vec<u16> {
    text.encode_utf16().collect()
}

#[test]
fn words_of_message_parameters_are_signed_or_not_as_asked() {
    assert_eq!(loword_signed(0x0001_FFFF), -1);
    assert_eq!(hiword_signed(0xFFFE_0005u32 as isize), -2);
    assert_eq!(hiword(0x0078_0010), 0x78);
    let packed = point_lparam(ScreenPoint::new(-3, 70));
    assert_eq!(loword_signed(packed), -3);
    assert_eq!(hiword_signed(packed), 70);
}

#[test]
fn logical_lengths_scale_with_the_dpi() {
    assert_eq!(scale_value(96, 100), 100);
    assert_eq!(scale_value(144, 100), 150);
    assert_eq!(scale_value(120, 7), 9);
    assert_eq!(scale_value(0, 96), 1);
    assert_eq!(unscale_value(144, 150), 100);
    assert_eq!(unscale_value(0, 1), 96);
    assert_eq!(scaled_rect(192, 1, 2, 3, 4), Rect::new(2, 4, 6, 8));
    assert_eq!(normalized_dpi(0), 96);
    assert_eq!(normalized_dpi(120), 120);
}

#[test]
fn tray_messages_keep_only_the_events_the_tray_handles() {
    assert_eq!(tray_event(0x0003_007B), 0x007B);
    assert_eq!(tray_event(0x0203), 0x0203);
    assert_eq!(tray_event(0x0001_0202), 0x0001_0202);
}

#[test]
fn edits_and_the_check_box_apply_live() {
    assert!(live_setting_changed(ID_GRID_COLOR_EDIT, EN_CHANGE));
    assert!(live_setting_changed(ID_MONITOR_EDIT_BASE + 5, EN_CHANGE));
    assert!(!live_setting_changed(ID_GRID_COLOR_EDIT, BN_CLICKED));
    assert!(live_setting_changed(ID_RUN_STARTUP, BN_CLICKED));
    assert!(!live_setting_changed(ID_RUN_STARTUP, EN_CHANGE));
}

#[test]
fn clicks_on_the_settings_window_find_their_control() {
    assert_eq!(settings_click(670, 10), SettingsClick::Close);
    assert_eq!(settings_click(640, 10), SettingsClick::ToggleTheme);
    assert_eq!(settings_click(100, 20), SettingsClick::DragWindow);
    assert_eq!(settings_click(650, 90), SettingsClick::PickColor(ColorTarget::Grid));
    assert_eq!(settings_click(660, 140), SettingsClick::PickColor(ColorTarget::Selection));
    assert_eq!(settings_click(673, 209), SettingsClick::PickColor(ColorTarget::Border));
    assert_eq!(settings_click(300, 300), SettingsClick::Nothing);
    assert!(swatch_hit(649, 86, 0));
    assert!(!swatch_hit(649, 86, 3));
}

#[test]
fn drag_cancel_targets_hold_each_window_once() {
    let mut targets = [10, 0, 0];
    push_unique_hwnd(&mut targets, 10);
    push_unique_hwnd(&mut targets, 0);
    push_unique_hwnd(&mut targets, 20);
    push_unique_hwnd(&mut targets, 30);
    push_unique_hwnd(&mut targets, 40);
    assert_eq!(targets, [10, 20, 30]);
}

#[test]
fn win32_rects_become_screen_rects() {
    assert_eq!(rect_to_screen_rect(Rect::new(-10, 5, 90, 25)), ScreenRect::new(-10, 5, 100, 20));
    assert_eq!(rect_to_screen_rect(Rect::new(10, 5, 0, 0)), ScreenRect::new(10, 5, 1, 1));
}

#[test]
fn strings_round_trip_through_utf16() {
    let w = wide("Grid é 😀");
    assert_eq!(*w.last().unwrap(), 0);
    assert_eq!(string_from_wide_z(&w), "Grid é 😀");
    assert_eq!(decode_lossy(&[0x0041, 0xD800, 0x0042]), "A\u{FFFD}B");
    let mut buffer = [7u16; 4];
    copy_wide(&mut buffer, "abcdef");
    assert_eq!(buffer, [0x61, 0x62, 0x63, 0]);
    let mut roomy = [7u16; 6];
    copy_wide(&mut roomy, "ab");
    assert_eq!(roomy, [0x61, 0x62, 0, 7, 7, 7]);
}

#[test]
fn blending_mixes_premultiplied_pixels() {
    let mut pixels = vec![0u32; 4];
    blend_overlay_pixel(&mut pixels, 2, 1, 0, RgbaColor { red: 255, green: 0, blue: 0, alpha: 255 });
    assert_eq!(pixels, vec![0, 0xFFFF_0000, 0, 0]);
    blend_overlay_pixel(&mut pixels, 2, 0, 1, RgbaColor { red: 0, green: 0, blue: 255, alpha: 0 });
    assert_eq!(pixels[2], 0);
    blend_overlay_pixel(&mut pixels, 2, 5, 5, RgbaColor { red: 1, green: 1, blue: 1, alpha: 255 });
    assert_eq!(pixels, vec![0, 0xFFFF_0000, 0, 0]);
    let mut half = vec![0xFF00_0000u32];
    blend_overlay_pixel(&mut half, 1, 0, 0, RgbaColor { red: 0, green: 0, blue: 255, alpha: 128 });
    assert_eq!(half[0], 0xFF00_0080);
}

#[test]
fn grid_lines_are_drawn_at_cell_boundaries() {
    let mut pixels = vec![0u32; 16];
    let white = RgbaColor { red: 255, green: 255, blue: 255, alpha: 255 };
    draw_overlay_grid(&mut pixels, 4, 4, GridSpec::clamped(2, 2), white);
    let dark: Vec<usize> = (0..16).filter(|&i| pixels[i] == 0).collect();
    assert_eq!(dark, vec![5]);
    assert_eq!(pixels[0], 0xFFFF_FFFF);
}

#[test]
fn selections_are_filled_and_bordered() {
    let mut pixels = vec![0u32; 64];
    let fill = RgbaColor { red: 0, green: 0, blue: 255, alpha: 255 };
    let border = RgbaColor { red: 255, green: 0, blue: 0, alpha: 255 };
    draw_overlay_selection(
        &mut pixels,
        8,
        8,
        ScreenRect::new(100, 100, 8, 8),
        ScreenRect::new(100, 100, 8, 8),
        fill,
        border,
    );
    assert_eq!(pixels[0], 0xFFFF_0000);
    assert_eq!(pixels[2 * 8 + 2], 0xFFFF_0000);
    assert_eq!(pixels[3 * 8 + 3], 0xFF00_00FF);
    assert_eq!(pixels[4 * 8 + 4], 0xFF00_00FF);
    assert_eq!(pixels[7 * 8 + 7], 0xFFFF_0000);
}

#[test]
fn edit_controls_are_read_trimmed() {
    let buffer = units("  12 \u{0}garbage");
    assert_eq!(edit_text(&buffer, 5).as_deref(), Some("12"));
    assert_eq!(edit_number(&buffer, 5), Some(12));
    assert_eq!(edit_text(&buffer, 0), None);
    assert_eq!(edit_number(&units("+7"), 2), Some(7));
    assert_eq!(edit_number(&units("70000"), 5), None);
    assert_eq!(edit_number(&units("abc"), 3), None);
}

#[test]
fn only_valid_colors_are_taken_from_the_form() {
    assert_eq!(
        read_valid_hex_color(Some(" #abcdef ".to_string()), "#FFFFFF11").as_deref(),
        Some("#ABCDEF")
    );
    assert_eq!(read_valid_hex_color(Some("#abc".to_string()), "#FFFFFF11"), None);
    assert_eq!(read_valid_hex_color(None, "#FFFFFF11"), None);
}

#[test]
fn applying_the_form_updates_sizes_colors_and_the_current_grid() {
    let mut state = state();
    let saved = apply_settings_form(
        &mut state,
        SettingsForm {
            monitors: vec![MonitorReading { columns: Some(30), rows: None }],
            grid_color: Some("#123456".to_string()),
            selection_color: Some("invalid".to_string()),
            selection_border_color: None,
            run_on_startup: true,
        },
    );
    assert_eq!((state.settings.monitors[0].columns, state.settings.monitors[0].rows), (20, 2));
    assert_eq!((state.settings.monitors[1].columns, state.settings.monitors[1].rows), (3, 3));
    assert_eq!(state.settings.grid_color, "#123456");
    assert_eq!(state.settings.selection_color, "#00FFFF11");
    assert_eq!(state.settings.selection_border_color, "#00FFFF44");
    assert!(state.settings.run_on_startup);
    assert_eq!((state.grid.columns(), state.grid.rows()), (20, 2));
    assert_eq!(saved.grid_color, "#123456");
    assert_eq!(saved.monitors[0].columns, 20);
}

#[test]
fn the_theme_switch_flips_only_the_theme() {
    let mut state = state();
    let saved = toggle_theme(&mut state);
    assert!(!state.settings.is_dark_mode);
    assert!(!saved.is_dark_mode);
    toggle_theme(&mut state);
    assert!(state.settings.is_dark_mode);
}

#[test]
fn refreshing_merges_the_new_monitors_and_keeps_colors() {
    let mut state = state();
    state.settings.grid_color = "#ffffff22".to_string();
    refresh_settings(&mut state, vec![monitor("B", 2, 2), monitor("C", 5, 4)], true);
    assert_eq!(state.settings.monitors.len(), 2);
    assert_eq!(state.settings.monitors[0].device_name, "B");
    assert_eq!((state.settings.monitors[0].columns, state.settings.monitors[0].rows), (3, 3));
    assert_eq!((state.settings.monitors[1].columns, state.settings.monitors[1].rows), (5, 4));
    assert_eq!(state.settings.grid_color, "#ffffff22");
    assert!(state.settings.run_on_startup);
    assert!(state.settings.is_dark_mode);
    assert_eq!((state.grid.columns(), state.grid.rows()), (3, 3));
}

#[test]
fn closing_the_settings_window_forgets_its_controls() {
    let mut state = state();
    state.settings_hwnd = 50;
    state.monitor_edits = vec![MonitorEdit { columns_edit: 51, rows_edit: 52 }];
    state.grid_color_edit = 53;
    forget_settings_window(&mut state, 49);
    assert_eq!(state.settings_hwnd, 50);
    forget_settings_window(&mut state, 50);
    assert_eq!(state.settings_hwnd, 0);
    assert!(state.monitor_edits.is_empty());
    assert_eq!(state.grid_color_edit, 0);
}

#[test]
fn existing_controls_are_repainted_in_order() {
    let mut state = state();
    state.monitor_edits = vec![
        MonitorEdit { columns_edit: 11, rows_edit: 0 },
        MonitorEdit { columns_edit: 13, rows_edit: 14 },
    ];
    state.grid_color_edit = 20;
    state.selection_color_edit = 0;
    state.selection_border_color_edit = 22;
    state.run_startup_checkbox = 23;
    assert_eq!(controls_to_repaint(&state), vec![11, 13, 14, 20, 22, 23]);
}

#[test]
fn the_settings_window_has_a_palette_per_theme() {
    let dark = settings_palette(true);
    let light = settings_palette(false);
    assert_eq!(dark.background, rgb(30, 30, 30));
    assert_eq!(light.background, rgb(243, 243, 243));
    assert_eq!(dark.edit_background, rgb(45, 45, 45));
    assert_eq!(light.group_border, rgb(90, 90, 90));
    assert_eq!(settings_text_color(true, false, false), rgb(255, 64, 64));
    assert_eq!(settings_text_color(false, true, false), rgb(238, 238, 238));
    assert_eq!(settings_text_color(false, false, false), rgb(35, 35, 35));
}

#[test]
fn monitor_rows_are_laid_out_downwards() {
    assert_eq!(monitor_row_top(0), 82);
    assert_eq!(monitor_row_top(6), 418);
    assert_eq!(monitor_edit_ids(2), (ID_MONITOR_EDIT_BASE + 4, ID_MONITOR_EDIT_BASE + 5));
    assert_eq!(group_title_width(96, 4), 44);
    assert_eq!(group_title_width(192, 4), 88);
}

#[test]
fn picked_colors_keep_the_alpha_digits() {
    assert_eq!(picked_color_text(0x00FF_8001, "#00000080"), "#0180FF80");
    assert_eq!(picked_color_text(0x0000_00AB, "#000000"), "#AB0000FF");
    assert_eq!(target_default(ColorTarget::Border), "#00FFFF44");
    assert_eq!(color_dialog_start(None, ColorTarget::Grid), "#FFFFFF11");
    assert_eq!(
        color_dialog_start(Some(" #a1b2c3 ".to_string()), ColorTarget::Selection),
        "#A1B2C3"
    );
    assert_eq!(color_dialog_start(Some("x".to_string()), ColorTarget::Selection), "#00FFFF11");
    let mut state = state();
    state.selection_color_edit = 77;
    assert_eq!(target_edit(&state, ColorTarget::Selection), 77);
}

#[test]
fn drag_targets_prefer_the_foreign_foreground_window() {
    assert_eq!(target_window(1, 10, 2, 11, 20, 21, 3), Some(11));
    assert_eq!(target_window(1, 10, 1, 11, 20, 21, 3), Some(21));
    assert_eq!(target_window(1, 0, 0, 0, 20, 21, 1), None);
    assert_eq!(target_window(1, 0, 0, 0, 0, 0, 0), None);
    assert!(in_move_size_loop(None));
    assert!(in_move_size_loop(Some((2, 0))));
    assert!(in_move_size_loop(Some((0, 5))));
    assert!(!in_move_size_loop(Some((1, 0))));
}

#[test]
fn snapped_rects_are_compensated_for_the_windows_dpi() {
    let rect = ScreenRect::new(10, 20, 300, 200);
    assert_eq!(dpi_compensated_rect(rect, true, true, 96, 144), ScreenRect::new(10, 20, 200, 133));
    assert_eq!(dpi_compensated_rect(rect, false, true, 96, 144), rect);
    assert_eq!(dpi_compensated_rect(rect, true, false, 96, 144), rect);
    assert_eq!(dpi_compensated_rect(rect, true, true, 144, 144), rect);
    assert_eq!(rect_center(rect), ScreenPoint::new(160, 120));
    assert_eq!(window_size_arg(u32::MAX), i32::MAX);
    assert_eq!(window_size_arg(5), 5);
}

#[test]
fn menu_commands_and_com_results_are_decoded() {
    assert_eq!(menu_action(ID_SETTINGS), MenuAction::ShowSettings);
    assert_eq!(menu_action(ID_EXIT), MenuAction::Exit);
    assert_eq!(menu_action(3), MenuAction::Nothing);
    assert_eq!(com_init_outcome(0), Some(true));
    assert_eq!(com_init_outcome(1), Some(true));
    assert_eq!(com_init_outcome(RPC_E_CHANGED_MODE), Some(false));
    assert_eq!(com_init_outcome(-1), None);
}

#[test]
fn monitors_are_described_from_system_information() {
    let mut device = units("\\\\.\\DISPLAY1");
    device.extend([0, 65, 66]);
    let m = monitor_config_from_info(
        &device,
        None,
        Rect::new(0, 0, 1920, 1080),
        Rect::new(0, 0, 1920, 1040),
    );
    assert_eq!(m.device_name, "\\\\.\\DISPLAY1");
    assert_eq!(m.display_name, "\\\\.\\DISPLAY1");
    assert_eq!(m.work_rect, ScreenRect::new(0, 0, 1920, 1040));
    assert_eq!((m.columns, m.rows), (2, 2));
    let named = monitor_config_from_info(&device, Some("Dell".to_string()), Rect::new(0, 0, 1, 1), Rect::new(0, 0, 1, 1));
    assert_eq!(named.display_name, "Dell");
    let fallback = fallback_monitor_at(ScreenPoint::new(-5, 7));
    assert_eq!(fallback.device_name, "DISPLAY");
    assert_eq!(fallback.display_name, "Primary Monitor");
    assert_eq!(fallback.monitor_rect, ScreenRect::new(-5, 7, 1, 1));
}

#[test]
fn clicks_map_back_to_the_logical_layout() {
    for dpi in [96, 120, 144, 168, 192, 97, 250] {
        for value in [0, 1, 7, 86, 649, 673, 700] {
            assert_eq!(unscale_value(dpi, scale_value(dpi, value)), value);
        }
    }
}

#[test]
fn applying_the_form_as_shown_changes_nothing() {
    let mut state = state();
    apply_settings_form(
        &mut state,
        SettingsForm {
            monitors: vec![
                MonitorReading { columns: Some(2), rows: Some(2) },
                MonitorReading { columns: Some(3), rows: Some(3) },
            ],
            grid_color: Some("#FFFFFF11".to_string()),
            selection_color: Some("#00FFFF11".to_string()),
            selection_border_color: Some("#00FFFF44".to_string()),
            run_on_startup: false,
        },
    );
    let fresh = state_settings_snapshot(&state);
    assert_eq!(fresh, ("#FFFFFF11".to_string(), "#00FFFF11".to_string(), "#00FFFF44".to_string(), false, vec![(2, 2), (3, 3)]));
}

fn state_settings_snapshot(state: &AppState) -> (String, String, String, bool, Vec<(u16, u16)>) {
    (
        state.settings.grid_color.clone(),
        state.settings.selection_color.clone(),
        state.settings.selection_border_color.clone(),
        state.settings.run_on_startup,
        state.settings.monitors.iter().map(|m| (m.columns, m.rows)).collect(),
    )
}
