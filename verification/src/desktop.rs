//! Decisions about other programs' windows that sit between native queries: which window
//! a drag targets, whether a window is still in its move/size loop, the size handed to the
//! system when a window is moved, compensation for a window whose DPI differs from that of
//! the monitor it lands on, what a tray menu command does, and how COM set-up went.
use vstd::prelude::*;

use crate::geometry::{ScreenPoint, ScreenRect};
use crate::grid::fits_i32;
use crate::settings::{MonitorConfig, MonitorView};
use crate::text::{chars_of, string_of};
use crate::wide::{before_zero, decode_utf16_lossy, string_from_wide_z};
use crate::winmsg::{rect_to_screen_rect, Rect};

verus! {

/// The window a drag acts on. The foreground window's top-level window wins when it belongs
/// to another process; else the top-level window under the pointer, unless there is none or
/// it belongs to this process.
pub open spec fn spec_target_window(
    current_pid: u32,
    foreground: isize,
    foreground_pid: u32,
    foreground_root: isize,
    point_window: isize,
    point_root: isize,
    point_root_pid: u32,
) -> Option<isize> {
    if foreground != 0 && foreground_pid != current_pid && foreground_root != 0 {
        Some(foreground_root)
    } else if point_window == 0 {
        None
    } else if point_root == 0 || point_root_pid == current_pid {
        None
    } else {
        Some(point_root)
    }
}

/// Chooses the drag target from what the system reported: the foreground window, its
/// process and top-level window, the window under the pointer, its top-level window and
/// that window's process (zero handles where there is none).
pub fn target_window(
    current_pid: u32,
    foreground: isize,
    foreground_pid: u32,
    foreground_root: isize,
    point_window: isize,
    point_root: isize,
    point_root_pid: u32,
) -> (r: Option<isize>)
    ensures
        r == spec_target_window(
            current_pid,
            foreground,
            foreground_pid,
            foreground_root,
            point_window,
            point_root,
            point_root_pid,
        ),
{
    if foreground != 0 && foreground_pid != current_pid && foreground_root != 0 {
        return Some(foreground_root);
    }
    if point_window == 0 {
        return None;
    }
    if point_root == 0 || point_root_pid == current_pid {
        return None;
    }
    Some(point_root)
}

/// `GUI_INMOVESIZE` in `GUITHREADINFO::flags`.
pub const GUI_INMOVESIZE: u32 = 0x0000_0002;

/// Whether a window's thread is in a move/size loop, from its GUI thread information (the
/// flags and the move/size window); without that information the answer is yes.
pub fn in_move_size_loop(info: Option<(u32, isize)>) -> (b: bool)
    ensures
        b == match info {
            Some((flags, move_size)) => flags & GUI_INMOVESIZE != 0 || move_size != 0,
            None => true,
        },
{
    match info {
        Some((flags, move_size)) => (flags & GUI_INMOVESIZE) != 0 || move_size != 0,
        None => true,
    }
}

/// A width or height as `SetWindowPos` takes it, saturating at `i32::MAX`.
pub fn window_size_arg(value: u32) -> (r: i32)
    ensures
        r == (if value > i32::MAX {
            i32::MAX as int
        } else {
            value as int
        }),
{
    if value > 2147483647 {
        2147483647
    } else {
        value as i32
    }
}

/// The point in the middle of a rectangle, by which its monitor is found.
pub fn rect_center(rect: ScreenRect) -> (p: ScreenPoint)
    requires
        rect.x + rect.width / 2 <= i32::MAX,
        rect.y + rect.height / 2 <= i32::MAX,
    ensures
        p.x == rect.x + rect.width / 2,
        p.y == rect.y + rect.height / 2,
{
    ScreenPoint::new(rect.x + (rect.width / 2) as i32, rect.y + (rect.height / 2) as i32)
}

/// A size scaled by `window_dpi / monitor_dpi`, saturating at `u32::MAX`.
pub open spec fn spec_rescaled(value: u32, window_dpi: u32, monitor_dpi: u32) -> u32 {
    let v = (value as int * window_dpi as int) / monitor_dpi as int;
    if v > u32::MAX {
        u32::MAX
    } else {
        v as u32
    }
}

/// The rectangle to hand to a window that scales itself for its own DPI: when the monitor's
/// DPI is known, the window is per-monitor aware and its DPI differs from the monitor's,
/// the size is scaled by the ratio of the two; otherwise the rectangle is kept.
pub open spec fn spec_dpi_compensated(
    rect: ScreenRect,
    monitor_dpi_known: bool,
    per_monitor_aware: bool,
    window_dpi: u32,
    monitor_dpi: u32,
) -> ScreenRect {
    if !monitor_dpi_known || !per_monitor_aware || window_dpi == 0 || monitor_dpi == 0
        || window_dpi == monitor_dpi {
        rect
    } else {
        ScreenRect {
            width: spec_rescaled(rect.width, window_dpi, monitor_dpi),
            height: spec_rescaled(rect.height, window_dpi, monitor_dpi),
            ..rect
        }
    }
}

fn rescaled(value: u32, window_dpi: u32, monitor_dpi: u32) -> (r: u32)
    requires
        monitor_dpi > 0,
    ensures
        r == spec_rescaled(value, window_dpi, monitor_dpi),
{
    assert(value as int * window_dpi as int <= u32::MAX as int * u32::MAX as int) by (nonlinear_arith);
    let product = (value as u64) * (window_dpi as u64);
    let v = product / (monitor_dpi as u64);
    if v > 4294967295 {
        4294967295
    } else {
        v as u32
    }
}

pub fn dpi_compensated_rect(
    rect: ScreenRect,
    monitor_dpi_known: bool,
    per_monitor_aware: bool,
    window_dpi: u32,
    monitor_dpi: u32,
) -> (r: ScreenRect)
    ensures
        r == spec_dpi_compensated(rect, monitor_dpi_known, per_monitor_aware, window_dpi, monitor_dpi),
{
    if !monitor_dpi_known || !per_monitor_aware || window_dpi == 0 || monitor_dpi == 0
        || window_dpi == monitor_dpi {
        return rect;
    }
    ScreenRect::new(
        rect.x,
        rect.y,
        rescaled(rect.width, window_dpi, monitor_dpi),
        rescaled(rect.height, window_dpi, monitor_dpi),
    )
}

/// Tray menu command: open the settings window.
pub const ID_SETTINGS: usize = 1080;

/// Tray menu command: quit.
pub const ID_EXIT: usize = 1099;

/// What a tray menu command asks for.
#[derive(Debug, Clone, Copy, PartialEq, Eq, Structural)]
pub enum MenuAction {
    ShowSettings,
    Exit,
    Nothing,
}

pub fn menu_action(command: usize) -> (a: MenuAction)
    ensures
        a == (if command == ID_SETTINGS {
            MenuAction::ShowSettings
        } else if command == ID_EXIT {
            MenuAction::Exit
        } else {
            MenuAction::Nothing
        }),
{
    if command == ID_SETTINGS {
        MenuAction::ShowSettings
    } else if command == ID_EXIT {
        MenuAction::Exit
    } else {
        MenuAction::Nothing
    }
}

/// `RPC_E_CHANGED_MODE`: COM was already set up on this thread in another mode.
pub const RPC_E_CHANGED_MODE: i32 = -2147417850i32;

/// What `CoInitializeEx` returned means: `None` when COM cannot be used; otherwise whether
/// this call set COM up and must undo that with `CoUninitialize`.
pub fn com_init_outcome(result: i32) -> (r: Option<bool>)
    ensures
        r == (if result >= 0 {
            Some(true)
        } else if result == RPC_E_CHANGED_MODE {
            Some(false)
        } else {
            None
        }),
{
    if result >= 0 {
        Some(true)
    } else if result == RPC_E_CHANGED_MODE {
        Some(false)
    } else {
        None
    }
}

/// The screen rectangle of a Win32 rectangle, as `rect_to_screen_rect` makes it.
pub open spec fn spec_screen_rect(rect: Rect) -> ScreenRect {
    ScreenRect {
        x: rect.left,
        y: rect.top,
        width: if rect.right - rect.left >= 0 {
            (rect.right - rect.left) as u32
        } else {
            1
        },
        height: if rect.bottom - rect.top >= 0 {
            (rect.bottom - rect.top) as u32
        } else {
            1
        },
    }
}

/// An attached monitor as the system describes it: its device name (a zero-terminated
/// buffer), its friendly name when one was found, and its whole and work areas. Its grid
/// starts at two by two.
pub fn monitor_config_from_info(
    device: &[u16],
    friendly: Option<String>,
    monitor_rect: Rect,
    work_rect: Rect,
) -> (m: MonitorConfig)
    requires
        fits_i32(monitor_rect.right - monitor_rect.left),
        fits_i32(monitor_rect.bottom - monitor_rect.top),
        fits_i32(work_rect.right - work_rect.left),
        fits_i32(work_rect.bottom - work_rect.top),
    ensures
        m@ == ({
            let device_name = decode_utf16_lossy(device@.take(before_zero(device@, 0)));
            MonitorView {
                device_name,
                display_name: match friendly {
                    Some(f) => f@,
                    None => device_name,
                },
                monitor_rect: spec_screen_rect(monitor_rect),
                work_rect: spec_screen_rect(work_rect),
                columns: 2,
                rows: 2,
            }
        }),
{
    let device_name = string_from_wide_z(device);
    let display_name = match friendly {
        Some(f) => f,
        None => device_name.clone(),
    };
    MonitorConfig {
        device_name,
        display_name,
        monitor_rect: rect_to_screen_rect(monitor_rect),
        work_rect: rect_to_screen_rect(work_rect),
        columns: 2,
        rows: 2,
    }
}

/// The monitor assumed at `point` when the system describes none: a one-pixel primary
/// monitor there, with a two by two grid.
pub fn fallback_monitor_at(point: ScreenPoint) -> (m: MonitorConfig)
    ensures
        m@ == (MonitorView {
            device_name: "DISPLAY"@,
            display_name: "Primary Monitor"@,
            monitor_rect: ScreenRect { x: point.x, y: point.y, width: 1, height: 1 },
            work_rect: ScreenRect { x: point.x, y: point.y, width: 1, height: 1 },
            columns: 2,
            rows: 2,
        }),
{
    MonitorConfig {
        device_name: string_of(chars_of("DISPLAY").as_slice()),
        display_name: string_of(chars_of("Primary Monitor").as_slice()),
        monitor_rect: ScreenRect::new(point.x, point.y, 1, 1),
        work_rect: ScreenRect::new(point.x, point.y, 1, 1),
        columns: 2,
        rows: 2,
    }
}

} // verus!
