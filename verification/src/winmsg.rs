//! Window-message arithmetic: packed coordinates, DPI scaling, and the decisions the
//! app's windows make from notification codes and click positions.
use vstd::prelude::*;

use crate::geometry::{ScreenPoint, ScreenRect};

verus! {

pub const WM_CONTEXTMENU: u32 = 0x007B;

pub const WM_LBUTTONDBLCLK: u32 = 0x0203;

pub const WM_RBUTTONUP: u32 = 0x0205;

pub const EN_CHANGE: usize = 0x0300;

pub const BN_CLICKED: usize = 0;

pub const ID_RUN_STARTUP: usize = 2006;

pub const ID_GRID_COLOR_EDIT: usize = 2007;

pub const ID_SELECTION_COLOR_EDIT: usize = 2008;

pub const ID_SELECTION_BORDER_EDIT: usize = 2009;

pub const ID_MONITOR_EDIT_BASE: usize = 3000;

/// The DPI at which one logical unit is one pixel.
pub const BASE_DPI: u32 = 96;

/// A Win32 `RECT`: edges, right and bottom exclusive.
#[derive(Debug, Clone, Copy, PartialEq, Eq, Structural)]
pub struct Rect {
    pub left: i32,
    pub top: i32,
    pub right: i32,
    pub bottom: i32,
}

impl Rect {
    pub fn new(left: i32, top: i32, right: i32, bottom: i32) -> (r: Self)
        ensures
            r.left == left,
            r.top == top,
            r.right == right,
            r.bottom == bottom,
    {
        Self { left, top, right, bottom }
    }
}

/// The low 16 bits of a message parameter, read as a signed number.
pub fn loword_signed(value: isize) -> (r: i32)
    ensures
        r == value as u16 as i16,
{
    let r = (value as u32 & 0xFFFF) as i16 as i32;
    proof {
        assert((value as u32 & 0xFFFF) as i16 == value as u16 as i16) by (bit_vector);
    }
    r
}

/// Bits 16 to 31 of a message parameter, read as a signed number.
pub fn hiword_signed(value: isize) -> (r: i32)
    ensures
        r == ((value as u32) >> 16u32) as u16 as i16,
{
    let r = ((value as u32 >> 16) & 0xFFFF) as i16 as i32;
    proof {
        assert(((value as u32 >> 16u32) & 0xFFFF) as i16 == ((value as u32) >> 16u32) as u16 as i16)
            by (bit_vector);
    }
    r
}

/// Bits 16 to 31 of a message parameter.
pub fn hiword(value: usize) -> (r: u16)
    ensures
        r == (value >> 16usize) as u16,
{
    let r = ((value >> 16) & 0xFFFF) as u16;
    proof {
        assert(((value >> 16usize) & 0xFFFF) as u16 == (value >> 16usize) as u16) by (bit_vector);
    }
    r
}

/// A point packed as mouse messages carry it: `x` in the low word, `y` in the next.
pub open spec fn spec_point_lparam(point: ScreenPoint) -> isize {
    ((point.x as u16 as u32) | ((point.y as u16 as u32) << 16u32)) as isize
}

pub fn point_lparam(point: ScreenPoint) -> (l: isize)
    ensures
        l == spec_point_lparam(point),
{
    let x = (point.x as i16 as u16) as u32;
    let y = (point.y as i16 as u16) as u32;
    proof {
        let px = point.x;
        let py = point.y;
        assert(px as i16 as u16 == px as u16) by (bit_vector);
        assert(py as i16 as u16 == py as u16) by (bit_vector);
    }
    (x | (y << 16)) as isize
}

/// Packing a point and reading it back gives its coordinates cut to 16 bits.
pub proof fn lemma_point_lparam_round_trip(point: ScreenPoint)
    ensures
        spec_point_lparam(point) as u16 as i16 == point.x as i16,
        ((spec_point_lparam(point) as u32) >> 16u32) as u16 as i16 == point.y as i16,
{
    let px = point.x;
    let py = point.y;
    assert((((px as u16 as u32) | ((py as u16 as u32) << 16u32)) as isize) as u16 as i16
        == px as i16) by (bit_vector);
    assert(((((px as u16 as u32) | ((py as u16 as u32) << 16u32)) as isize as u32) >> 16u32) as u16
        as i16 == py as i16) by (bit_vector);
}

/// Division rounding toward zero, as integer division in Rust does.
pub open spec fn div_trunc(a: int, b: int) -> int {
    if a >= 0 {
        a / b
    } else {
        -((-a) / b)
    }
}

pub open spec fn clamp_to_i32(v: int) -> i32 {
    if v < i32::MIN {
        i32::MIN
    } else if v > i32::MAX {
        i32::MAX
    } else {
        v as i32
    }
}

pub open spec fn at_least_one(dpi: u32) -> int {
    if dpi < 1 {
        1
    } else {
        dpi as int
    }
}

/// A length in logical units (96 DPI) converted to pixels at `dpi`, rounded to nearest.
pub open spec fn spec_scale(dpi: u32, value: i32) -> i32 {
    clamp_to_i32(div_trunc(value * at_least_one(dpi) + 48, 96))
}

/// A length in pixels at `dpi` converted to logical units, rounded to nearest.
pub open spec fn spec_unscale(dpi: u32, value: i32) -> i32 {
    let d = at_least_one(dpi);
    clamp_to_i32(div_trunc(value * 96 + d / 2, d))
}

fn clamp_i64_to_i32(v: i64) -> (r: i32)
    ensures
        r == clamp_to_i32(v as int),
{
    if v < i32::MIN as i64 {
        i32::MIN
    } else if v > i32::MAX as i64 {
        i32::MAX
    } else {
        v as i32
    }
}

pub fn scale_value(dpi: u32, value: i32) -> (r: i32)
    ensures
        r == spec_scale(dpi, value),
{
    let d: u32 = if dpi < 1 {
        1
    } else {
        dpi
    };
    proof {
        vstd::arithmetic::mul::lemma_mul_upper_bound(
            if value >= 0 { value as int } else { -value },
            2147483648,
            d as int,
            u32::MAX as int,
        );
        assert(value * d == if value >= 0 { (value as int) * d } else { -((-value) * d) }) by (nonlinear_arith);
    }
    let scaled = value as i64 * d as i64;
    clamp_i64_to_i32((scaled + 48) / 96)
}

pub fn unscale_value(dpi: u32, value: i32) -> (r: i32)
    ensures
        r == spec_unscale(dpi, value),
{
    let d: i64 = if dpi < 1 {
        1
    } else {
        dpi as i64
    };
    clamp_i64_to_i32((value as i64 * 96 + d / 2) / d)
}

/// A logical length laid out at a DPI of at least the base DPI, and the physical length
/// read back at that DPI, give the logical length again (for lengths that are not negative
/// and whose scaled value fits in `i32`). So a click inside a control laid out in logical
/// units maps back to the logical coordinates it was laid out at.
pub proof fn lemma_unscale_undoes_scale(dpi: u32, value: i32)
    requires
        dpi >= BASE_DPI,
        value >= 0,
        value * dpi + 48 <= 96 * i32::MAX,
    ensures
        spec_unscale(dpi, spec_scale(dpi, value)) == value,
{
    let d = dpi as int;
    let v = value as int;
    let n = v * d + 48;
    assert(n >= 0) by (nonlinear_arith)
        requires
            v >= 0,
            d >= 96,
            n == v * d + 48,
    ;
    let s = n / 96;
    assert(0 <= s <= i32::MAX) by (nonlinear_arith)
        requires
            0 <= n <= 96 * i32::MAX,
            s == n / 96,
    ;
    assert(spec_scale(dpi, value) == s);
    let m = s * 96 + d / 2;
    assert(s * 96 <= n && n < s * 96 + 96) by (nonlinear_arith)
        requires
            n >= 0,
            s == n / 96,
    ;
    if d == 96 {
        assert(s * 96 + 48 != v * 96 + 96);
    }
    assert(v * d <= m < v * d + d) by (nonlinear_arith)
        requires
            s * 96 <= v * d + 48,
            v * d + 48 < s * 96 + 96,
            d >= 96,
            m == s * 96 + d / 2,
            d == 96 ==> s * 96 + 48 != v * d + 96,
    ;
    assert(m / d == v) by (nonlinear_arith)
        requires
            v * d <= m < v * d + d,
            d > 0,
    ;
    assert(m >= 0);
}

/// A rectangle given in logical units, converted to pixels at `dpi`.
pub fn scaled_rect(dpi: u32, left: i32, top: i32, right: i32, bottom: i32) -> (r: Rect)
    ensures
        r == (Rect {
            left: spec_scale(dpi, left),
            top: spec_scale(dpi, top),
            right: spec_scale(dpi, right),
            bottom: spec_scale(dpi, bottom),
        }),
{
    Rect::new(
        scale_value(dpi, left),
        scale_value(dpi, top),
        scale_value(dpi, right),
        scale_value(dpi, bottom),
    )
}

/// A DPI reading of zero (unknown) stands for the base DPI.
pub fn normalized_dpi(dpi: u32) -> (r: u32)
    ensures
        r == (if dpi == 0 {
            BASE_DPI
        } else {
            dpi
        }),
{
    if dpi == 0 {
        BASE_DPI
    } else {
        dpi
    }
}

/// The tray notification a tray message stands for: the low word when it names a
/// context-menu request, a double click or a right-button release, the whole value otherwise.
pub fn tray_event(lparam: isize) -> (e: u32)
    ensures
        ({
            let raw = lparam as u32;
            let low = raw % 65536;
            e == if low == WM_CONTEXTMENU || low == WM_LBUTTONDBLCLK || low == WM_RBUTTONUP {
                low
            } else {
                raw
            }
        }),
{
    let raw = lparam as u32;
    let low_word = raw & 0xFFFF;
    proof {
        assert(raw & 0xFFFF == raw % 65536) by (bit_vector);
    }
    if low_word == WM_CONTEXTMENU || low_word == WM_LBUTTONDBLCLK || low_word == WM_RBUTTONUP {
        low_word
    } else {
        raw
    }
}

/// Whether a settings-window notification changes a setting that applies at once: an edit
/// of a color or of a monitor's grid size, or a click on the startup checkbox.
pub fn live_setting_changed(control_id: usize, notification: usize) -> (b: bool)
    ensures
        b == ((notification == EN_CHANGE && (control_id == ID_GRID_COLOR_EDIT || control_id
            == ID_SELECTION_COLOR_EDIT || control_id == ID_SELECTION_BORDER_EDIT || control_id
            >= ID_MONITOR_EDIT_BASE)) || (notification == BN_CLICKED && control_id
            == ID_RUN_STARTUP)),
{
    let is_edit_change = notification == EN_CHANGE && (control_id == ID_GRID_COLOR_EDIT
        || control_id == ID_SELECTION_COLOR_EDIT || control_id == ID_SELECTION_BORDER_EDIT
        || control_id >= ID_MONITOR_EDIT_BASE);
    let is_checkbox_click = notification == BN_CLICKED && control_id == ID_RUN_STARTUP;
    is_edit_change || is_checkbox_click
}

/// The top edge (logical units) of the color swatch `index`, for the three swatches.
pub open spec fn swatch_top(index: usize) -> Option<int> {
    if index == 0 {
        Some(86)
    } else if index == 1 {
        Some(136)
    } else if index == 2 {
        Some(187)
    } else {
        None
    }
}

/// Whether a click at logical `(x, y)` lands on color swatch `index`.
pub fn swatch_hit(x: i32, y: i32, index: usize) -> (b: bool)
    ensures
        b == match swatch_top(index) {
            Some(top) => 649 <= x <= 673 && top <= y <= top + 22,
            None => false,
        },
{
    let top: i32 = if index == 0 {
        86
    } else if index == 1 {
        136
    } else if index == 2 {
        187
    } else {
        return false;
    };
    649 <= x && x <= 673 && top <= y && y <= top + 22
}

/// Which of the three color settings a swatch edits.
#[derive(Debug, Clone, Copy, PartialEq, Eq, Structural)]
pub enum ColorTarget {
    Grid,
    Selection,
    Border,
}

/// What a left click on the settings window does.
#[derive(Debug, Clone, Copy, PartialEq, Eq, Structural)]
pub enum SettingsClick {
    /// Apply the settings and close the window.
    Close,
    ToggleTheme,
    /// Start moving the window by its title area.
    DragWindow,
    PickColor(ColorTarget),
    Nothing,
}

/// The action for a left click at logical `(x, y)` in the settings window: the close and
/// theme buttons in the title area, the rest of the title area moves the window, and the
/// three swatches pick colors.
pub fn settings_click(x: i32, y: i32) -> (c: SettingsClick)
    ensures
        c == (if 662 <= x <= 694 && 4 <= y <= 36 {
            SettingsClick::Close
        } else if 632 <= x <= 662 && 4 <= y <= 36 {
            SettingsClick::ToggleTheme
        } else if y < 40 {
            SettingsClick::DragWindow
        } else if 649 <= x <= 673 && 86 <= y <= 108 {
            SettingsClick::PickColor(ColorTarget::Grid)
        } else if 649 <= x <= 673 && 136 <= y <= 158 {
            SettingsClick::PickColor(ColorTarget::Selection)
        } else if 649 <= x <= 673 && 187 <= y <= 209 {
            SettingsClick::PickColor(ColorTarget::Border)
        } else {
            SettingsClick::Nothing
        }),
{
    if 662 <= x && x <= 694 && 4 <= y && y <= 36 {
        SettingsClick::Close
    } else if 632 <= x && x <= 662 && 4 <= y && y <= 36 {
        SettingsClick::ToggleTheme
    } else if y < 40 {
        SettingsClick::DragWindow
    } else if swatch_hit(x, y, 0) {
        SettingsClick::PickColor(ColorTarget::Grid)
    } else if swatch_hit(x, y, 1) {
        SettingsClick::PickColor(ColorTarget::Selection)
    } else if swatch_hit(x, y, 2) {
        SettingsClick::PickColor(ColorTarget::Border)
    } else {
        SettingsClick::Nothing
    }
}

/// The slot that `push_unique_hwnd` fills, if it fills one.
pub open spec fn push_slot(targets: Seq<isize>, hwnd: isize) -> Option<int> {
    if hwnd == 0 || targets.contains(hwnd) {
        None
    } else if targets[0] == 0 {
        Some(0)
    } else if targets[1] == 0 {
        Some(1)
    } else if targets[2] == 0 {
        Some(2)
    } else {
        None
    }
}

/// Adds a window to the drag-cancel targets unless it is null or already present: it takes
/// the first empty slot, and is dropped when there is none.
pub fn push_unique_hwnd(targets: &mut [isize; 3], hwnd: isize)
    ensures
        final(targets)@ == match push_slot(old(targets)@, hwnd) {
            Some(slot) => old(targets)@.update(slot, hwnd),
            None => old(targets)@,
        },
{
    if hwnd == 0 || targets[0] == hwnd || targets[1] == hwnd || targets[2] == hwnd {
        proof {
            if hwnd != 0 {
                if targets[0] == hwnd {
                    assert(old(targets)@[0] == hwnd);
                } else if targets[1] == hwnd {
                    assert(old(targets)@[1] == hwnd);
                } else {
                    assert(old(targets)@[2] == hwnd);
                }
            }
        }
        return;
    }
    proof {
        assert(!old(targets)@.contains(hwnd)) by {
            assert(old(targets)@.len() == 3);
        }
    }
    if targets[0] == 0 {
        targets[0] = hwnd;
        proof {
            assert(old(targets)@[0] == 0);
        }
    } else if targets[1] == 0 {
        targets[1] = hwnd;
        proof {
            assert(old(targets)@[1] == 0);
        }
    } else if targets[2] == 0 {
        targets[2] = hwnd;
        proof {
            assert(old(targets)@[2] == 0);
        }
    } else {
        proof {
            assert(!old(targets)@.contains(0)) by {
                assert(old(targets)@.len() == 3);
            }
        }
    }
}

/// A Win32 rectangle as a screen rectangle; a negative width or height becomes 1.
pub fn rect_to_screen_rect(rect: Rect) -> (r: ScreenRect)
    requires
        crate::grid::fits_i32(rect.right - rect.left),
        crate::grid::fits_i32(rect.bottom - rect.top),
    ensures
        r == (ScreenRect {
            x: rect.left,
            y: rect.top,
            width: if rect.right - rect.left >= 0 {
                (rect.right - rect.left) as u32
            } else {
                1
            },
            height: if rect.bottom - rect.top >= 0 {
                (rect.bottom - rect.top) as u32
            } else {
                1
            },
        }),
{
    let w = rect.right - rect.left;
    let h = rect.bottom - rect.top;
    ScreenRect::new(
        rect.left,
        rect.top,
        if w >= 0 {
            w as u32
        } else {
            1
        },
        if h >= 0 {
            h as u32
        } else {
            1
        },
    )
}

} // verus!
