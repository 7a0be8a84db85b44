//! The settings window's logic: what the text of its edit controls means, how the filled-in
//! form changes the settings, what a theme switch and a monitor change do, the colors the
//! window is painted with, and the text of a color picked in the color dialog.
use vstd::prelude::*;

use crate::app_state::{spec_initial_grid, AppState, MonitorEdit};
use crate::color::{
    is_settled_color, lemma_settled_color_fixed, normalize_hex_color, spec_is_valid_hex_color, spec_normalize, spec_rgb, rgb,
    is_valid_hex_color, DEFAULT_GRID_COLOR, DEFAULT_SELECTION_BORDER_COLOR,
    DEFAULT_SELECTION_COLOR,
};
use crate::grid::GridSpec;
use crate::settings::{
    clamp_grid_dimension, default_grid, merge_monitors, monitors_view,
    spec_clamp_grid_setting, spec_merge, spec_stored_from_data, stored_settings_from_data,
    MonitorConfig, MonitorView, SettingsData, SettingsView,
};
use crate::text::{chars_of, parse_u16, parse_u16_chars, string_of, trim, trimmed};
use crate::wide::{decode_lossy, decode_utf16_lossy};
use crate::winmsg::{scale_value, spec_scale, ColorTarget};

verus! {

/// The first `len` units of a buffer.
fn units_prefix(buffer: &[u16], len: usize) -> (r: Vec<u16>)
    requires
        len <= buffer.len(),
    ensures
        r@ == buffer@.take(len as int),
{
    let mut r: Vec<u16> = Vec::new();
    let mut i: usize = 0;
    while i < len
        invariant
            i <= len <= buffer.len(),
            r@ == buffer@.take(i as int),
        decreases len - i,
    {
        r.push(buffer[i]);
        i += 1;
        proof {
            assert(buffer@.take(i as int) == buffer@.take(i - 1).push(buffer@[i - 1]));
        }
    }
    r
}

/// The text of an edit control, trimmed: `len` is what `GetWindowTextW` returned for the
/// buffer it filled, and nothing (or a failure) gives `None`.
pub open spec fn spec_edit_text(units: Seq<u16>, len: i32) -> Option<Seq<char>> {
    if len <= 0 {
        None
    } else {
        Some(trim(decode_utf16_lossy(units.take(len as int))))
    }
}

/// The number typed into an edit control, if its trimmed text is one.
pub open spec fn spec_edit_number(units: Seq<u16>, len: i32) -> Option<u16> {
    match spec_edit_text(units, len) {
        Some(t) => parse_u16(t),
        None => None,
    }
}

pub open spec fn text_view(text: Option<String>) -> Option<Seq<char>> {
    match text {
        Some(s) => Some(s@),
        None => None,
    }
}

pub fn edit_text(buffer: &[u16], len: i32) -> (r: Option<String>)
    requires
        len <= buffer.len(),
    ensures
        text_view(r) == spec_edit_text(buffer@, len),
{
    if len <= 0 {
        return None;
    }
    let units = units_prefix(buffer, len as usize);
    let decoded = decode_lossy(units.as_slice());
    let cs = chars_of(decoded.as_str());
    let t = trimmed(cs.as_slice());
    Some(string_of(t.as_slice()))
}

pub fn edit_number(buffer: &[u16], len: i32) -> (r: Option<u16>)
    requires
        len <= buffer.len(),
    ensures
        r == spec_edit_number(buffer@, len),
{
    match edit_text(buffer, len) {
        Some(t) => {
            let cs = chars_of(t.as_str());
            parse_u16_chars(cs.as_slice())
        },
        None => None,
    }
}

/// A color typed into an edit control, normalized, when it is a valid color.
pub open spec fn spec_valid_color(text: Option<Seq<char>>, default: Seq<char>) -> Option<Seq<char>> {
    match text {
        Some(t) => if spec_is_valid_hex_color(t) {
            Some(spec_normalize(Some(t), default))
        } else {
            None
        },
        None => None,
    }
}

pub fn read_valid_hex_color(text: Option<String>, default: &str) -> (r: Option<String>)
    ensures
        text_view(r) == spec_valid_color(text_view(text), default@),
{
    match text {
        Some(t) => {
            if is_valid_hex_color(t.as_str()) {
                Some(normalize_hex_color(Some(t.as_str()), default))
            } else {
                None
            }
        },
        None => None,
    }
}

/// What the two edit controls of one monitor hold: a number, or `None` when they hold none.
#[derive(Debug, Clone, Copy, PartialEq, Eq, Structural)]
pub struct MonitorReading {
    pub columns: Option<u16>,
    pub rows: Option<u16>,
}

/// The settings window as the user left it: one reading per monitor row, the text of the
/// three color edits (`None` when empty) and the startup check box.
pub struct SettingsForm {
    pub monitors: Vec<MonitorReading>,
    pub grid_color: Option<String>,
    pub selection_color: Option<String>,
    pub selection_border_color: Option<String>,
    pub run_on_startup: bool,
}

pub open spec fn or_else(value: Option<u16>, fallback: u16) -> u16 {
    match value {
        Some(v) => v,
        None => fallback,
    }
}

/// A monitor's grid size after its row of the form was read: a typed number replaces
/// the size, and either way the size is limited to the valid range.
pub open spec fn spec_apply_reading(m: MonitorView, r: MonitorReading) -> MonitorView {
    MonitorView {
        columns: spec_clamp_grid_setting(or_else(r.columns, m.columns)),
        rows: spec_clamp_grid_setting(or_else(r.rows, m.rows)),
        ..m
    }
}

pub open spec fn spec_apply_readings(ms: Seq<MonitorView>, rs: Seq<MonitorReading>) -> Seq<
    MonitorView,
> {
    Seq::new(
        ms.len(),
        |i: int|
            if i < rs.len() {
                spec_apply_reading(ms[i], rs[i])
            } else {
                ms[i]
            },
    )
}

/// A color setting after its edit was read: a valid color replaces it.
pub open spec fn spec_apply_color(old: Seq<char>, text: Option<Seq<char>>, default: Seq<char>) -> Seq<
    char,
> {
    match spec_valid_color(text, default) {
        Some(c) => c,
        None => old,
    }
}

/// The settings after the form was applied; the theme is not on the form.
pub open spec fn spec_apply_form(s: SettingsView, f: SettingsForm) -> SettingsView {
    SettingsView {
        monitors: spec_apply_readings(s.monitors, f.monitors@),
        grid_color: spec_apply_color(s.grid_color, text_view(f.grid_color), DEFAULT_GRID_COLOR@),
        selection_color: spec_apply_color(
            s.selection_color,
            text_view(f.selection_color),
            DEFAULT_SELECTION_COLOR@,
        ),
        selection_border_color: spec_apply_color(
            s.selection_border_color,
            text_view(f.selection_border_color),
            DEFAULT_SELECTION_BORDER_COLOR@,
        ),
        run_on_startup: f.run_on_startup,
        is_dark_mode: s.is_dark_mode,
    }
}

/// Everything but the settings and the current grid is the same in both states.
pub open spec fn same_besides_settings(a: &AppState, b: &AppState) -> bool {
    &&& a.main_hwnd == b.main_hwnd
    &&& a.settings_hwnd == b.settings_hwnd
    &&& a.monitor_edits@ == b.monitor_edits@
    &&& a.grid_color_edit == b.grid_color_edit
    &&& a.selection_color_edit == b.selection_color_edit
    &&& a.selection_border_color_edit == b.selection_border_color_edit
    &&& a.run_startup_checkbox == b.run_startup_checkbox
    &&& a.syncing_settings_ui == b.syncing_settings_ui
    &&& a.settings_dpi == b.settings_dpi
    &&& a.overlay_hwnd == b.overlay_hwnd
    &&& a.hook == b.hook
    &&& a.app_icon == b.app_icon
    &&& a.left_button_down == b.left_button_down
    &&& a.dragging == b.dragging
    &&& a.suppress_right_up == b.suppress_right_up
    &&& a.target_hwnd == b.target_hwnd
    &&& a.monitor_device_name@ == b.monitor_device_name@
    &&& a.monitor_rect == b.monitor_rect
    &&& a.tracker == b.tracker
    &&& a.selection == b.selection
    &&& a.queued_snap == b.queued_snap
    &&& a.snap_apply_pending == b.snap_apply_pending
    &&& a.settle_snap == b.settle_snap
}

/// The grid of the first monitor, else two by two.
fn first_grid(monitors: &Vec<MonitorConfig>) -> (g: GridSpec)
    ensures
        g == spec_initial_grid(monitors_view(monitors@)),
{
    if monitors.len() > 0 {
        GridSpec::clamped(monitors[0].columns, monitors[0].rows)
    } else {
        default_grid()
    }
}

fn apply_reading(m: &MonitorConfig, r: MonitorReading) -> (n: MonitorConfig)
    ensures
        n@ == spec_apply_reading(m@, r),
{
    let mut n = m.clone();
    n.columns = clamp_grid_dimension(
        match r.columns {
            Some(v) => v,
            None => m.columns,
        },
    );
    n.rows = clamp_grid_dimension(
        match r.rows {
            Some(v) => v,
            None => m.rows,
        },
    );
    n
}

fn apply_color(old: &String, text: Option<String>, default: &str) -> (r: String)
    ensures
        r@ == spec_apply_color(old@, text_view(text), default@),
{
    match read_valid_hex_color(text, default) {
        Some(c) => c,
        None => old.clone(),
    }
}

/// Applies the settings window to the live settings (the new grid sizes, valid colors and
/// the startup choice), makes the first monitor's grid current, and returns the settings
/// to save.
pub fn apply_settings_form(state: &mut AppState, form: SettingsForm) -> (r: SettingsData)
    ensures
        final(state).settings@ == spec_apply_form(old(state).settings@, form),
        final(state).grid == spec_initial_grid(final(state).settings@.monitors),
        r@ == final(state).settings@,
        same_besides_settings(&*final(state), &*old(state)),
{
    let ghost before = state.settings@.monitors;
    let mut monitors: Vec<MonitorConfig> = Vec::new();
    let mut i: usize = 0;
    while i < state.settings.monitors.len()
        invariant
            i <= state.settings.monitors.len(),
            before == monitors_view(state.settings.monitors@),
            monitors@.len() == i,
            forall|k: int|
                0 <= k < i ==> #[trigger] monitors@[k]@ == spec_apply_readings(
                    before,
                    form.monitors@,
                )[k],
        decreases state.settings.monitors.len() - i,
    {
        let m = if i < form.monitors.len() {
            apply_reading(&state.settings.monitors[i], form.monitors[i])
        } else {
            state.settings.monitors[i].clone()
        };
        monitors.push(m);
        i += 1;
    }
    proof {
        assert(monitors_view(monitors@) =~= spec_apply_readings(before, form.monitors@));
    }
    let grid_color = apply_color(&state.settings.grid_color, form.grid_color, DEFAULT_GRID_COLOR);
    let selection_color = apply_color(
        &state.settings.selection_color,
        form.selection_color,
        DEFAULT_SELECTION_COLOR,
    );
    let selection_border_color = apply_color(
        &state.settings.selection_border_color,
        form.selection_border_color,
        DEFAULT_SELECTION_BORDER_COLOR,
    );
    state.grid = first_grid(&monitors);
    state.settings.monitors = monitors;
    state.settings.grid_color = grid_color;
    state.settings.selection_color = selection_color;
    state.settings.selection_border_color = selection_border_color;
    state.settings.run_on_startup = form.run_on_startup;
    state.settings.clone()
}

/// Switches the settings window between the dark and the light theme and returns the
/// settings to save.
pub fn toggle_theme(state: &mut AppState) -> (r: SettingsData)
    ensures
        final(state).settings@ == (SettingsView {
            is_dark_mode: !old(state).settings@.is_dark_mode,
            ..old(state).settings@
        }),
        final(state).grid == old(state).grid,
        r@ == final(state).settings@,
        same_besides_settings(&*final(state), &*old(state)),
{
    state.settings.is_dark_mode = !state.settings.is_dark_mode;
    state.settings.clone()
}

/// The live settings after the attached monitors were enumerated again: monitors merged
/// with the saved grid sizes, colors and theme kept as they were, and the startup choice
/// taken from whether the startup shortcut exists now. The first monitor's grid becomes
/// current.
pub open spec fn spec_refreshed(s: SettingsView, monitors: Seq<MonitorView>, startup_enabled: bool) -> SettingsView {
    SettingsView {
        grid_color: s.grid_color,
        selection_color: s.selection_color,
        selection_border_color: s.selection_border_color,
        run_on_startup: startup_enabled,
        is_dark_mode: s.is_dark_mode,
        ..spec_merge(spec_stored_from_data(s), monitors, startup_enabled)
    }
}

pub fn refresh_settings(state: &mut AppState, monitors: Vec<MonitorConfig>, startup_enabled: bool)
    ensures
        final(state).settings@ == spec_refreshed(
            old(state).settings@,
            monitors_view(monitors@),
            startup_enabled,
        ),
        final(state).grid == spec_initial_grid(final(state).settings@.monitors),
        same_besides_settings(&*final(state), &*old(state)),
{
    let stored = stored_settings_from_data(&state.settings);
    let mut settings = merge_monitors(stored, monitors, startup_enabled);
    settings.grid_color = state.settings.grid_color.clone();
    settings.selection_color = state.settings.selection_color.clone();
    settings.selection_border_color = state.settings.selection_border_color.clone();
    settings.run_on_startup = startup_enabled;
    settings.is_dark_mode = state.settings.is_dark_mode;
    state.grid = first_grid(&settings.monitors);
    state.settings = settings;
}

/// The settings window is gone: forget its handles if it is the one the state knows.
pub fn forget_settings_window(state: &mut AppState, hwnd: isize)
    ensures
        old(state).settings_hwnd == hwnd ==> {
            &&& final(state).monitor_edits@.len() == 0
            &&& *final(state) == (AppState {
                settings_hwnd: 0,
                monitor_edits: final(state).monitor_edits,
                grid_color_edit: 0,
                selection_color_edit: 0,
                selection_border_color_edit: 0,
                run_startup_checkbox: 0,
                ..*old(state)
            })
        },
        old(state).settings_hwnd != hwnd ==> *final(state) == *old(state),
{
    if state.settings_hwnd == hwnd {
        state.settings_hwnd = 0;
        state.monitor_edits = Vec::new();
        state.grid_color_edit = 0;
        state.selection_color_edit = 0;
        state.selection_border_color_edit = 0;
        state.run_startup_checkbox = 0;
    }
}

/// The edit controls of the monitor rows, two per row, in order.
pub open spec fn edit_handles(edits: Seq<MonitorEdit>) -> Seq<isize>
    decreases edits.len(),
{
    if edits.len() == 0 {
        Seq::empty()
    } else {
        edit_handles(edits.drop_last()).push(edits.last().columns_edit).push(
            edits.last().rows_edit,
        )
    }
}

/// The handles that are not zero, in order.
pub open spec fn live_handles(hs: Seq<isize>) -> Seq<isize>
    decreases hs.len(),
{
    if hs.len() == 0 {
        Seq::empty()
    } else if hs.last() != 0 {
        live_handles(hs.drop_last()).push(hs.last())
    } else {
        live_handles(hs.drop_last())
    }
}

/// Every control of the settings window, in the order they are repainted.
pub open spec fn settings_controls(state: &AppState) -> Seq<isize> {
    edit_handles(state.monitor_edits@).push(state.grid_color_edit).push(
        state.selection_color_edit,
    ).push(state.selection_border_color_edit).push(state.run_startup_checkbox)
}

proof fn lemma_live_push(hs: Seq<isize>, h: isize)
    ensures
        live_handles(hs.push(h)) == if h != 0 {
            live_handles(hs).push(h)
        } else {
            live_handles(hs)
        },
{
    assert(hs.push(h).drop_last() == hs);
}

fn push_live(out: &mut Vec<isize>, h: isize, Ghost(hs): Ghost<Seq<isize>>)
    requires
        old(out)@ == live_handles(hs),
    ensures
        final(out)@ == live_handles(hs.push(h)),
{
    proof {
        lemma_live_push(hs, h);
    }
    if h != 0 {
        out.push(h);
    }
}

/// The controls of the settings window that exist, to repaint after a theme switch.
pub fn controls_to_repaint(state: &AppState) -> (r: Vec<isize>)
    ensures
        r@ == live_handles(settings_controls(state)),
{
    let mut out: Vec<isize> = Vec::new();
    let mut i: usize = 0;
    while i < state.monitor_edits.len()
        invariant
            i <= state.monitor_edits.len(),
            out@ == live_handles(edit_handles(state.monitor_edits@.take(i as int))),
        decreases state.monitor_edits.len() - i,
    {
        let edit = state.monitor_edits[i];
        let ghost before = edit_handles(state.monitor_edits@.take(i as int));
        proof {
            let next = state.monitor_edits@.take(i + 1);
            assert(next.drop_last() == state.monitor_edits@.take(i as int));
            assert(next.last() == edit);
        }
        push_live(&mut out, edit.columns_edit, Ghost(before));
        push_live(&mut out, edit.rows_edit, Ghost(before.push(edit.columns_edit)));
        i += 1;
    }
    proof {
        assert(state.monitor_edits@.take(state.monitor_edits.len() as int) == state.monitor_edits@);
    }
    let ghost e = edit_handles(state.monitor_edits@);
    push_live(&mut out, state.grid_color_edit, Ghost(e));
    push_live(&mut out, state.selection_color_edit, Ghost(e.push(state.grid_color_edit)));
    push_live(
        &mut out,
        state.selection_border_color_edit,
        Ghost(e.push(state.grid_color_edit).push(state.selection_color_edit)),
    );
    push_live(
        &mut out,
        state.run_startup_checkbox,
        Ghost(
            e.push(state.grid_color_edit).push(state.selection_color_edit).push(
                state.selection_border_color_edit,
            ),
        ),
    );
    out
}

/// The colors of the settings window in one theme.
#[derive(Debug, Clone, Copy, PartialEq, Eq, Structural)]
pub struct SettingsPalette {
    pub background: u32,
    pub card: u32,
    pub group_border: u32,
    pub lightbulb: u32,
    pub edit_text: u32,
    pub edit_background: u32,
    pub info_text: u32,
}

pub open spec fn spec_palette(dark: bool) -> SettingsPalette {
    if dark {
        SettingsPalette {
            background: spec_rgb(30, 30, 30),
            card: spec_rgb(45, 45, 45),
            group_border: spec_rgb(220, 220, 220),
            lightbulb: spec_rgb(255, 214, 102),
            edit_text: spec_rgb(255, 255, 255),
            edit_background: spec_rgb(45, 45, 45),
            info_text: spec_rgb(255, 255, 255),
        }
    } else {
        SettingsPalette {
            background: spec_rgb(243, 243, 243),
            card: spec_rgb(255, 255, 255),
            group_border: spec_rgb(90, 90, 90),
            lightbulb: spec_rgb(56, 56, 56),
            edit_text: spec_rgb(0, 0, 0),
            edit_background: spec_rgb(255, 255, 255),
            info_text: spec_rgb(35, 35, 35),
        }
    }
}

pub fn settings_palette(dark: bool) -> (p: SettingsPalette)
    ensures
        p == spec_palette(dark),
{
    if dark {
        SettingsPalette {
            background: rgb(30, 30, 30),
            card: rgb(45, 45, 45),
            group_border: rgb(220, 220, 220),
            lightbulb: rgb(255, 214, 102),
            edit_text: rgb(255, 255, 255),
            edit_background: rgb(45, 45, 45),
            info_text: rgb(255, 255, 255),
        }
    } else {
        SettingsPalette {
            background: rgb(243, 243, 243),
            card: rgb(255, 255, 255),
            group_border: rgb(90, 90, 90),
            lightbulb: rgb(56, 56, 56),
            edit_text: rgb(0, 0, 0),
            edit_background: rgb(255, 255, 255),
            info_text: rgb(35, 35, 35),
        }
    }
}

/// The color of a line of text in the settings window: the close button is red, other
/// text is brighter when `bright` and follows the theme.
pub fn settings_text_color(is_close_button: bool, dark: bool, bright: bool) -> (c: u32)
    ensures
        c == (if is_close_button {
            spec_rgb(255, 64, 64)
        } else if dark && bright {
            spec_rgb(255, 255, 255)
        } else if dark {
            spec_rgb(238, 238, 238)
        } else if bright {
            spec_rgb(0, 0, 0)
        } else {
            spec_rgb(35, 35, 35)
        }),
{
    if is_close_button {
        rgb(255, 64, 64)
    } else if dark && bright {
        rgb(255, 255, 255)
    } else if dark {
        rgb(238, 238, 238)
    } else if bright {
        rgb(0, 0, 0)
    } else {
        rgb(35, 35, 35)
    }
}

/// How many monitor rows the settings window has room for.
pub const MAX_MONITOR_ROWS: usize = 7;

/// Logical top of the edit controls of monitor row `index`.
pub fn monitor_row_top(index: usize) -> (y: i32)
    requires
        index < MAX_MONITOR_ROWS,
    ensures
        y == 82 + 56 * index,
{
    82 + (index as i32) * 56
}

/// Control identifiers of the columns and rows edits of monitor row `index`.
pub fn monitor_edit_ids(index: usize) -> (ids: (usize, usize))
    requires
        index < MAX_MONITOR_ROWS,
    ensures
        ids.0 == crate::winmsg::ID_MONITOR_EDIT_BASE + 2 * index,
        ids.1 == crate::winmsg::ID_MONITOR_EDIT_BASE + 2 * index + 1,
{
    (crate::winmsg::ID_MONITOR_EDIT_BASE + index * 2, crate::winmsg::ID_MONITOR_EDIT_BASE + index * 2 + 1)
}

/// Width in pixels of the background behind a group box title of `title_chars` characters
/// (a count too large for `i32` counts as none).
pub fn group_title_width(dpi: u32, title_chars: usize) -> (w: i32)
    requires
        title_chars > i32::MAX || 7 * title_chars + 16 <= i32::MAX,
    ensures
        w == spec_scale(
            dpi,
            (if title_chars > i32::MAX {
                16
            } else {
                7 * title_chars + 16
            }) as i32,
        ),
{
    let count: i32 = if title_chars > 2147483647 {
        0
    } else {
        title_chars as i32
    };
    scale_value(dpi, count * 7 + 16)
}

/// An upper-case hex digit.
pub open spec fn hex_digit_upper(d: int) -> char {
    if d < 10 {
        (d + '0' as int) as char
    } else {
        (d - 10 + 'A' as int) as char
    }
}

/// Two upper-case hex digits of a byte, as `{:02X}` writes it.
pub open spec fn hex_pair(v: int) -> Seq<char> {
    seq![hex_digit_upper(v / 16), hex_digit_upper(v % 16)]
}

/// The color text for the `COLORREF` the color dialog returned, keeping the alpha digits of
/// the color it started from (opaque when that color had none).
pub open spec fn spec_picked_color(colorref: u32, start: Seq<char>) -> Seq<char> {
    seq!['#'] + hex_pair((colorref % 256) as int) + hex_pair(((colorref / 256) % 256) as int)
        + hex_pair(((colorref / 65536) % 256) as int) + if start.len() == 9 {
        start.subrange(7, 9)
    } else {
        seq!['F', 'F']
    }
}

fn hex_digit_char(d: u32) -> (c: char)
    requires
        d < 16,
    ensures
        c == hex_digit_upper(d as int),
{
    if d < 10 {
        ((48u8 + d as u8) as char)
    } else {
        ((55u8 + d as u8) as char)
    }
}

fn push_hex_pair(s: &mut String, v: u32)
    requires
        v < 256,
    ensures
        final(s)@ == old(s)@ + hex_pair(v as int),
{
    s.push(hex_digit_char(v / 16));
    s.push(hex_digit_char(v % 16));
}

pub fn picked_color_text(colorref: u32, start: &str) -> (r: String)
    ensures
        r@ == spec_picked_color(colorref, start@),
{
    let red = colorref & 0xFF;
    let green = (colorref >> 8) & 0xFF;
    let blue = (colorref >> 16) & 0xFF;
    assert(red == colorref % 256) by (bit_vector)
        requires
            red == colorref & 0xFF,
    ;
    assert(green == (colorref / 256) % 256) by (bit_vector)
        requires
            green == (colorref >> 8) & 0xFF,
    ;
    assert(blue == (colorref / 65536) % 256) by (bit_vector)
        requires
            blue == (colorref >> 16) & 0xFF,
    ;
    let mut s = String::new();
    s.push('#');
    push_hex_pair(&mut s, red);
    push_hex_pair(&mut s, green);
    push_hex_pair(&mut s, blue);
    let cs = chars_of(start);
    if cs.len() == 9 {
        s.push(cs[7]);
        s.push(cs[8]);
        proof {
            assert(start@.subrange(7, 9) =~= seq![cs@[7], cs@[8]]);
        }
    } else {
        s.push('F');
        s.push('F');
    }
    proof {
        let a = seq!['#'] + hex_pair(red as int);
        let b = a + hex_pair(green as int);
        let c = b + hex_pair(blue as int);
        assert(Seq::<char>::empty().push('#') =~= seq!['#']);
        assert(c.push(if cs.len() == 9 { cs@[7] } else { 'F' }).push(
            if cs.len() == 9 { cs@[8] } else { 'F' },
        ) =~= spec_picked_color(colorref, start@));
    }
    s
}

/// The text of the color edit for `target`'s default.
pub fn target_default(target: ColorTarget) -> (d: &'static str)
    ensures
        d@ == match target {
            ColorTarget::Grid => DEFAULT_GRID_COLOR@,
            ColorTarget::Selection => DEFAULT_SELECTION_COLOR@,
            ColorTarget::Border => DEFAULT_SELECTION_BORDER_COLOR@,
        },
{
    match target {
        ColorTarget::Grid => DEFAULT_GRID_COLOR,
        ColorTarget::Selection => DEFAULT_SELECTION_COLOR,
        ColorTarget::Border => DEFAULT_SELECTION_BORDER_COLOR,
    }
}

/// The edit control that holds `target`'s color.
pub fn target_edit(state: &AppState, target: ColorTarget) -> (h: isize)
    ensures
        h == match target {
            ColorTarget::Grid => state.grid_color_edit,
            ColorTarget::Selection => state.selection_color_edit,
            ColorTarget::Border => state.selection_border_color_edit,
        },
{
    match target {
        ColorTarget::Grid => state.grid_color_edit,
        ColorTarget::Selection => state.selection_color_edit,
        ColorTarget::Border => state.selection_border_color_edit,
    }
}

/// The color the color dialog starts from: the edit's text (its default when the edit is
/// empty) normalized.
pub fn color_dialog_start(current: Option<String>, target: ColorTarget) -> (r: String)
    ensures
        r@ == ({
            let d = match target {
                ColorTarget::Grid => DEFAULT_GRID_COLOR@,
                ColorTarget::Selection => DEFAULT_SELECTION_COLOR@,
                ColorTarget::Border => DEFAULT_SELECTION_BORDER_COLOR@,
            };
            spec_normalize(
                Some(
                    match current {
                        Some(c) => c@,
                        None => d,
                    },
                ),
                d,
            )
        }),
{
    let default = target_default(target);
    match current {
        Some(c) => normalize_hex_color(Some(c.as_str()), default),
        None => normalize_hex_color(Some(default), default),
    }
}

/// The form shows the settings as they are: each monitor row holds that monitor's grid
/// size, the color edits hold the colors, and the check box the startup choice.
pub open spec fn form_shows(f: SettingsForm, s: SettingsView) -> bool {
    &&& f.monitors@.len() <= s.monitors.len()
    &&& forall|i: int|
        0 <= i < f.monitors@.len() ==> #[trigger] f.monitors@[i] == (MonitorReading {
            columns: Some(s.monitors[i].columns),
            rows: Some(s.monitors[i].rows),
        })
    &&& text_view(f.grid_color) == Some(s.grid_color)
    &&& text_view(f.selection_color) == Some(s.selection_color)
    &&& text_view(f.selection_border_color) == Some(s.selection_border_color)
    &&& f.run_on_startup == s.run_on_startup
}

/// Applying a form that shows the settings as they are leaves them unchanged, when the
/// grid sizes lie in the accepted range and the colors are settled.
pub proof fn lemma_unchanged_form_keeps_settings(s: SettingsView, f: SettingsForm)
    requires
        form_shows(f, s),
        crate::settings_file::grid_sizes_in_range(s.monitors),
        is_settled_color(s.grid_color),
        is_settled_color(s.selection_color),
        is_settled_color(s.selection_border_color),
    ensures
        spec_apply_form(s, f) == s,
{
    let applied = spec_apply_form(s, f);
    assert forall|i: int| 0 <= i < s.monitors.len() implies #[trigger] applied.monitors[i]
        == s.monitors[i] by {
        if i < f.monitors@.len() {
            assert(f.monitors@[i] == (MonitorReading {
                columns: Some(s.monitors[i].columns),
                rows: Some(s.monitors[i].rows),
            }));
        }
    }
    assert(applied.monitors =~= s.monitors);
    lemma_settled_color_fixed(s.grid_color, DEFAULT_GRID_COLOR@);
    lemma_settled_color_fixed(s.selection_color, DEFAULT_SELECTION_COLOR@);
    lemma_settled_color_fixed(s.selection_border_color, DEFAULT_SELECTION_BORDER_COLOR@);
    crate::color::lemma_settled_is_valid(s.grid_color);
    crate::color::lemma_settled_is_valid(s.selection_color);
    crate::color::lemma_settled_is_valid(s.selection_border_color);
}

} // verus!
