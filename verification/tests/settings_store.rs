use snapdragin::color::{
    argb_to_rgba_hex, colorref_from_hex, is_valid_hex_color, normalize_hex_color,
    normalize_stored_hex_color, rgb, rgba_from_hex, RgbaColor, DEFAULT_GRID_COLOR,
    DEFAULT_SELECTION_BORDER_COLOR, DEFAULT_SELECTION_COLOR,
};
use snapdragin::geometry::ScreenRect;
use snapdragin::json::{
    stored_settings_from_files, extract_json_bool, extract_json_number, extract_json_string, parse_griddler_settings,
};
use snapdragin::settings::{
    clamp_grid_dimension, default_grid, default_stored_settings, merge_monitor, merge_monitors,
    stored_settings_from_data, MonitorConfig, SettingsData, StoredMonitorConfig, StoredSettings,
};
use snapdragin::settings_file::{parse_settings, settings_text};

fn monitor(device: &str, name: &str, columns: u16, rows: u16) -> MonitorConfig {
    MonitorConfig {
        device_name: device.to_string(),
        display_name: name.to_string(),
        monitor_rect: ScreenRect::new(0, 0, 1920, 1080),
        work_rect: ScreenRect::new(0, 0, 1920, 1040),
        columns,
        rows,
    }
}

fn sample_settings() -> SettingsData {
    SettingsData {
        monitors: vec![
            monitor("\\\\.\\DISPLAY1", "Dell U2720Q", 3, 2),
            monitor("\\\\.\\DISPLAY2", "\\\\.\\DISPLAY2", 4, 4),
        ],
        grid_color: "#FF000080".to_string(),
        selection_color: "#00FF00".to_string(),
        selection_border_color: "#0000FFCC".to_string(),
        run_on_startup: true,
        is_dark_mode: false,
    }
}

#[test]
fn valid_hex_colors_are_recognized_after_trimming() {
    assert!(is_valid_hex_color(" #abc123 "));
    assert!(is_valid_hex_color("#ABC12345"));
    assert!(!is_valid_hex_color("#abc12"));
    assert!(!is_valid_hex_color("#GGGGGG"));
    assert!(!is_valid_hex_color("abc1234"));
}

#[test]
fn colors_are_trimmed_and_upper_cased_or_replaced_by_the_default() {
    assert_eq!(normalize_hex_color(Some(" #ff00aa "), DEFAULT_GRID_COLOR), "#FF00AA");
    assert_eq!(normalize_hex_color(Some("nope"), DEFAULT_GRID_COLOR), "#FFFFFF11");
    assert_eq!(normalize_hex_color(None, DEFAULT_SELECTION_COLOR), "#00FFFF11");
    assert_eq!(normalize_hex_color(Some("#ffffff22"), DEFAULT_GRID_COLOR), "#FFFFFF22");
}

#[test]
fn former_default_colors_become_the_current_defaults() {
    assert_eq!(
        normalize_stored_hex_color(Some("#ffffff22"), DEFAULT_GRID_COLOR),
        "#FFFFFF11"
    );
    assert_eq!(
        normalize_stored_hex_color(Some("#2200FFFF"), DEFAULT_SELECTION_COLOR),
        "#00FFFF11"
    );
    assert_eq!(
        normalize_stored_hex_color(Some("#8800ffff"), DEFAULT_SELECTION_BORDER_COLOR),
        "#00FFFF44"
    );
    assert_eq!(
        normalize_stored_hex_color(Some("#123456"), DEFAULT_GRID_COLOR),
        "#123456"
    );
    assert_eq!(normalize_stored_hex_color(Some("#12"), DEFAULT_GRID_COLOR), "#FFFFFF11");
}

#[test]
fn argb_colors_are_rewritten_as_rgba() {
    assert_eq!(argb_to_rgba_hex("#80ff0000", DEFAULT_GRID_COLOR), "#FF000080");
    assert_eq!(argb_to_rgba_hex(" #00ff00 ", DEFAULT_GRID_COLOR), "#00FF00");
    assert_eq!(argb_to_rgba_hex("red", DEFAULT_SELECTION_COLOR), "#00FFFF11");
}

#[test]
fn drawing_colors_come_from_color_text() {
    assert_eq!(
        rgba_from_hex("#11223344", DEFAULT_GRID_COLOR),
        RgbaColor { red: 0x11, green: 0x22, blue: 0x33, alpha: 0x44 }
    );
    assert_eq!(
        rgba_from_hex("#a0b0c0", DEFAULT_GRID_COLOR),
        RgbaColor { red: 0xA0, green: 0xB0, blue: 0xC0, alpha: 255 }
    );
    assert_eq!(
        rgba_from_hex("oops", DEFAULT_SELECTION_BORDER_COLOR),
        RgbaColor { red: 0, green: 0xFF, blue: 0xFF, alpha: 0x44 }
    );
}

#[test]
fn colorrefs_put_red_in_the_low_byte() {
    assert_eq!(rgb(1, 2, 3), 0x0003_0201);
    assert_eq!(colorref_from_hex("#102030"), Some(0x0030_2010));
    assert_eq!(colorref_from_hex("bad"), Some(0x00FF_FFFF));
}

#[test]
fn grid_settings_are_clamped_to_the_settings_range() {
    assert_eq!(clamp_grid_dimension(0), 1);
    assert_eq!(clamp_grid_dimension(7), 7);
    assert_eq!(clamp_grid_dimension(99), 20);
    assert_eq!(default_grid().columns(), 2);
    assert_eq!(default_grid().rows(), 2);
}

#[test]
fn settings_are_written_one_key_per_line() {
    let text = settings_text(&sample_settings());
    assert_eq!(
        text,
        "grid_color=#FF000080\n\
         selection_color=#00FF00\n\
         selection_border_color=#0000FFCC\n\
         run_on_startup=true\n\
         is_dark_mode=false\n\
         monitor=\\\\.\\DISPLAY1|Dell U2720Q|3|2\n\
         monitor=\\\\.\\DISPLAY2|\\\\.\\DISPLAY2|4|4\n"
    );
}

#[test]
fn written_settings_read_back_as_their_stored_form() {
    let settings = sample_settings();
    let stored = parse_settings(&settings_text(&settings));
    let expected = stored_settings_from_data(&settings);
    assert_eq!(stored.grid_color, expected.grid_color);
    assert_eq!(stored.selection_color, expected.selection_color);
    assert_eq!(stored.selection_border_color, expected.selection_border_color);
    assert_eq!(stored.run_on_startup, Some(true));
    assert_eq!(stored.is_dark_mode, Some(false));
    assert_eq!(stored.monitors.len(), 2);
    for (read, wrote) in stored.monitors.iter().zip(expected.monitors.iter()) {
        assert_eq!(read.device_name, wrote.device_name);
        assert_eq!(read.display_name, wrote.display_name);
        assert_eq!(read.columns, wrote.columns);
        assert_eq!(read.rows, wrote.rows);
    }
}

#[test]
fn saved_settings_load_back_unchanged_with_the_same_monitors() {
    let settings = sample_settings();
    let stored = parse_settings(&settings_text(&settings));
    let attached = vec![
        monitor("\\\\.\\DISPLAY1", "Dell U2720Q", 2, 2),
        monitor("\\\\.\\DISPLAY2", "\\\\.\\DISPLAY2", 2, 2),
    ];
    let loaded = merge_monitors(stored, attached, false);
    assert_eq!(loaded.grid_color, settings.grid_color);
    assert_eq!(loaded.selection_color, settings.selection_color);
    assert_eq!(loaded.selection_border_color, settings.selection_border_color);
    assert_eq!(loaded.run_on_startup, settings.run_on_startup);
    assert_eq!(loaded.is_dark_mode, settings.is_dark_mode);
    for (a, b) in loaded.monitors.iter().zip(settings.monitors.iter()) {
        assert_eq!(a.device_name, b.device_name);
        assert_eq!(a.display_name, b.display_name);
        assert_eq!((a.columns, a.rows), (b.columns, b.rows));
    }
}

#[test]
fn settings_file_lines_are_read_leniently() {
    let stored = parse_settings(
        "  grid_color = #abcdef \r\n\
         run_on_startup=TRUE\n\
         is_dark_mode=no\n\
         junk line\n\
         monitor=DEV|Name|x|5\n\
         monitor=short|line\n\
         unknown=1\n",
    );
    assert_eq!(stored.grid_color, "#abcdef");
    assert_eq!(stored.selection_color, DEFAULT_SELECTION_COLOR);
    assert_eq!(stored.run_on_startup, Some(true));
    assert_eq!(stored.is_dark_mode, Some(false));
    assert_eq!(stored.monitors.len(), 1);
    assert_eq!(stored.monitors[0].device_name, "DEV");
    assert_eq!(stored.monitors[0].display_name, "Name");
    assert_eq!(stored.monitors[0].columns, 2);
    assert_eq!(stored.monitors[0].rows, 5);
}

#[test]
fn empty_settings_file_gives_the_defaults() {
    let stored = parse_settings("");
    let defaults = default_stored_settings();
    assert_eq!(stored.grid_color, defaults.grid_color);
    assert_eq!(stored.run_on_startup, None);
    assert_eq!(stored.is_dark_mode, Some(true));
    assert!(stored.monitors.is_empty());
}

#[test]
fn merging_applies_saved_grid_sizes_by_device_name() {
    let stored = vec![
        StoredMonitorConfig {
            device_name: "A".to_string(),
            display_name: "Left screen".to_string(),
            columns: 50,
            rows: 0,
        },
        StoredMonitorConfig {
            device_name: "A".to_string(),
            display_name: "Ignored".to_string(),
            columns: 3,
            rows: 3,
        },
    ];
    let merged = merge_monitor(&monitor("A", "A", 2, 2), &stored);
    assert_eq!((merged.columns, merged.rows), (20, 1));
    assert_eq!(merged.display_name, "Left screen");

    let named = merge_monitor(&monitor("A", "Dell", 2, 2), &stored);
    assert_eq!(named.display_name, "Dell");

    let other = merge_monitor(&monitor("B", "B", 6, 7), &stored);
    assert_eq!((other.columns, other.rows), (6, 7));
}

#[test]
fn merging_without_monitors_uses_a_primary_fallback() {
    let stored = StoredSettings {
        monitors: Vec::new(),
        grid_color: "bad".to_string(),
        selection_color: "#00ffff22".to_string(),
        selection_border_color: "#123456".to_string(),
        run_on_startup: None,
        is_dark_mode: None,
    };
    let merged = merge_monitors(stored, Vec::new(), true);
    assert_eq!(merged.monitors.len(), 1);
    assert_eq!(merged.monitors[0].device_name, "DISPLAY");
    assert_eq!(merged.monitors[0].display_name, "Primary Monitor");
    assert_eq!(merged.monitors[0].monitor_rect, ScreenRect::new(0, 0, 1, 1));
    assert_eq!(merged.grid_color, "#FFFFFF11");
    assert_eq!(merged.selection_color, "#00FFFF11");
    assert_eq!(merged.selection_border_color, "#123456");
    assert!(merged.run_on_startup);
    assert!(merged.is_dark_mode);
}

#[test]
fn json_values_are_found_by_key() {
    let text = r#"{ "Name" : "a\\\\b", "On": true, "Off":false, "Count": 42x, "Big": 70000 }"#;
    assert_eq!(extract_json_string(text, "Name").as_deref(), Some("a\\\\b"));
    assert_eq!(extract_json_string(text, "Missing"), None);
    assert_eq!(extract_json_string(text, "On"), None);
    assert_eq!(extract_json_bool(text, "On"), Some(true));
    assert_eq!(extract_json_bool(text, "Off"), Some(false));
    assert_eq!(extract_json_bool(text, "Name"), None);
    assert_eq!(extract_json_number(text, "Count"), Some(42));
    assert_eq!(extract_json_number(text, "Big"), None);
    assert_eq!(extract_json_number(text, "Name"), None);
}

#[test]
fn griddler_settings_are_taken_over() {
    let text = r##"{
        "GridColor": "#80FFFFFF",
        "SelectionColor": "nonsense",
        "RunOnStartup": true,
        "Monitors": [
            { "DeviceName": "\\\\.\\DISPLAY1", "FriendlyName": "Dell", "Columns": 3, "Rows": 4 },
            { "DeviceName": "\\\\.\\DISPLAY2", "Columns": "x" }
        ]
    }"##;
    let stored = parse_griddler_settings(text);
    assert_eq!(stored.grid_color, "#FFFFFF80");
    assert_eq!(stored.selection_color, DEFAULT_SELECTION_COLOR);
    assert_eq!(stored.selection_border_color, DEFAULT_SELECTION_BORDER_COLOR);
    assert_eq!(stored.run_on_startup, Some(true));
    assert_eq!(stored.is_dark_mode, Some(true));
    assert_eq!(stored.monitors.len(), 2);
    assert_eq!(stored.monitors[0].device_name, "\\\\.\\DISPLAY1");
    assert_eq!(stored.monitors[0].display_name, "Dell");
    assert_eq!((stored.monitors[0].columns, stored.monitors[0].rows), (3, 4));
    assert_eq!(stored.monitors[1].device_name, "\\\\.\\DISPLAY2");
    assert_eq!(stored.monitors[1].display_name, "");
    assert_eq!((stored.monitors[1].columns, stored.monitors[1].rows), (2, 2));
}

#[test]
fn normalizing_a_normalized_color_changes_nothing() {
    for value in [" #a1b2c3 ", "#ffffff22", "junk", "#00FFFF44"] {
        let once = normalize_hex_color(Some(value), DEFAULT_GRID_COLOR);
        assert_eq!(normalize_hex_color(Some(&once), DEFAULT_GRID_COLOR), once);
    }
}

#[test]
fn the_settings_file_wins_over_griddler_settings() {
    let from_file = stored_settings_from_files(Some("grid_color=#010203\n"), Some(r##"{"GridColor":"#80FFFFFF"}"##));
    assert_eq!(from_file.grid_color, "#010203");
    let from_griddler = stored_settings_from_files(None, Some(r##"{"GridColor":"#80FFFFFF"}"##));
    assert_eq!(from_griddler.grid_color, "#FFFFFF80");
    let defaults = stored_settings_from_files(None, None);
    assert_eq!(defaults.grid_color, DEFAULT_GRID_COLOR);
    assert_eq!(defaults.is_dark_mode, Some(true));
}

#[test]
fn an_unreadable_setting_is_drawn_in_what_the_default_spells() {
    assert_eq!(
        rgba_from_hex("bad", "##+F0x12"),
        RgbaColor { red: 15, green: 255, blue: 0x12, alpha: 255 }
    );
    assert_eq!(
        rgba_from_hex("bad", "#1234567g"),
        RgbaColor { red: 0x12, green: 0x34, blue: 0x56, alpha: 255 }
    );
    assert_eq!(
        rgba_from_hex(" #0a0b0c0d ", "##+F0x12"),
        RgbaColor { red: 0x0A, green: 0x0B, blue: 0x0C, alpha: 0x0D }
    );
}
