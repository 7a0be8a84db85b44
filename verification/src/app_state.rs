//! The app's state while the user drags a window across the grid, and the decisions it
//! makes on each mouse event; the caller performs the returned effects.
use vstd::prelude::*;

use crate::geometry::{ScreenPoint, ScreenRect};
use crate::grid::GridSpec;
use crate::selection::{spec_area, spec_area_rect, GridSelection, SelectionTracker};
use crate::settings::{default_grid, monitors_view, MonitorConfig, MonitorView, SettingsData};

verus! {

/// A move/resize of the target window waiting to be applied.
#[derive(Debug, Clone, Copy, PartialEq, Eq, Structural)]
pub struct PendingSnap {
    pub target: isize,
    pub rect: ScreenRect,
}

/// The edit controls of one monitor's row in the settings window.
#[derive(Debug, Clone, Copy, PartialEq, Eq, Structural)]
pub struct MonitorEdit {
    pub columns_edit: isize,
    pub rows_edit: isize,
}

#[derive(Debug)]
pub struct AppState {
    pub main_hwnd: isize,
    pub settings_hwnd: isize,
    pub monitor_edits: Vec<MonitorEdit>,
    pub grid_color_edit: isize,
    pub selection_color_edit: isize,
    pub selection_border_color_edit: isize,
    pub run_startup_checkbox: isize,
    pub syncing_settings_ui: bool,
    pub settings_dpi: u32,
    pub overlay_hwnd: isize,
    pub hook: isize,
    pub app_icon: isize,
    pub left_button_down: bool,
    pub dragging: bool,
    pub suppress_right_up: bool,
    pub target_hwnd: isize,
    pub grid: GridSpec,
    pub settings: SettingsData,
    pub monitor_device_name: String,
    pub monitor_rect: ScreenRect,
    pub tracker: Option<SelectionTracker>,
    pub selection: Option<GridSelection>,
    pub queued_snap: Option<PendingSnap>,
    pub snap_apply_pending: bool,
    pub settle_snap: Option<PendingSnap>,
}

/// Index of the first monitor with the given device name.
pub open spec fn find_monitor_from(ms: Seq<MonitorView>, device: Seq<char>, from: int) -> Option<int>
    decreases ms.len() - from,
{
    if from < 0 || from >= ms.len() {
        None
    } else if ms[from].device_name == device {
        Some(from)
    } else {
        find_monitor_from(ms, device, from + 1)
    }
}

pub proof fn lemma_find_monitor_from(ms: Seq<MonitorView>, device: Seq<char>, from: int)
    ensures
        find_monitor_from(ms, device, from) matches Some(i) ==> from <= i < ms.len()
            && ms[i].device_name == device,
    decreases ms.len() - from,
{
    if 0 <= from < ms.len() && ms[from].device_name != device {
        lemma_find_monitor_from(ms, device, from + 1);
    }
}

/// The grid size for a monitor: its saved size when the settings know the device, else the
/// size it came with; clamped to the valid range.
pub open spec fn spec_grid_for_monitor(ms: Seq<MonitorView>, info: MonitorView) -> GridSpec {
    match find_monitor_from(ms, info.device_name, 0) {
        Some(i) => GridSpec::spec_clamped(ms[i].columns, ms[i].rows),
        None => GridSpec::spec_clamped(info.columns, info.rows),
    }
}

pub open spec fn sat_i64(v: int) -> int {
    if v > i64::MAX {
        i64::MAX as int
    } else {
        v
    }
}

/// How far a point lies outside the span `[low, high]`.
pub open spec fn gap(v: int, low: int, high: int) -> int {
    if v < low {
        low - v
    } else if v > high {
        v - high
    } else {
        0
    }
}

/// Squared distance from a point to the nearest pixel of a rectangle, saturating at `i64::MAX`.
pub open spec fn spec_distance_squared(point: ScreenPoint, rect: ScreenRect) -> int {
    let dx = gap(point.x as int, rect.x as int, rect.spec_right() - 1);
    let dy = gap(point.y as int, rect.y as int, rect.spec_bottom() - 1);
    sat_i64(sat_i64(dx * dx) + sat_i64(dy * dy))
}

/// Index of the first monitor whose bounds contain the point.
pub open spec fn first_containing(ms: Seq<MonitorView>, point: ScreenPoint, from: int) -> Option<int>
    decreases ms.len() - from,
{
    if from < 0 || from >= ms.len() {
        None
    } else if ms[from].monitor_rect.spec_contains(point) {
        Some(from)
    } else {
        first_containing(ms, point, from + 1)
    }
}

/// Index of the first monitor at the least distance, among `best` and those from `from` on.
pub open spec fn nearest_from(ms: Seq<MonitorView>, point: ScreenPoint, from: int, best: int) -> int
    decreases ms.len() - from,
{
    if from < 0 || from >= ms.len() {
        best
    } else if spec_distance_squared(point, ms[from].monitor_rect) < spec_distance_squared(
        point,
        ms[best].monitor_rect,
    ) {
        nearest_from(ms, point, from + 1, from)
    } else {
        nearest_from(ms, point, from + 1, best)
    }
}

/// The monitor for a point among the saved monitors: the first one containing it, else the
/// first nearest one.
pub open spec fn spec_monitor_for_point(ms: Seq<MonitorView>, point: ScreenPoint) -> Option<int> {
    match first_containing(ms, point, 0) {
        Some(i) => Some(i),
        None => if ms.len() == 0 {
            None
        } else {
            Some(nearest_from(ms, point, 1, 0))
        },
    }
}

/// The monitor a drag is on: the saved monitor of the device under the pointer, or that
/// device with the grid size of the saved monitor for the point.
pub open spec fn spec_active_monitor(ms: Seq<MonitorView>, point: ScreenPoint, native: MonitorView) -> MonitorView {
    match find_monitor_from(ms, native.device_name, 0) {
        Some(i) => ms[i],
        None => match spec_monitor_for_point(ms, point) {
            Some(j) => MonitorView { columns: ms[j].columns, rows: ms[j].rows, ..native },
            None => native,
        },
    }
}

/// Squared distance from a point to the nearest pixel of a rectangle, saturating.
pub fn point_distance_to_rect_squared(point: ScreenPoint, rect: ScreenRect) -> (d: i64)
    ensures
        d == spec_distance_squared(point, rect),
{
    let x = point.x as i64;
    let y = point.y as i64;
    let left = rect.x as i64;
    let top = rect.y as i64;
    let right = rect.right() - 1;
    let bottom = rect.bottom() - 1;

    let dx = if x < left {
        left - x
    } else if x > right {
        x - right
    } else {
        0
    };
    let dy = if y < top {
        top - y
    } else if y > bottom {
        y - bottom
    } else {
        0
    };
    let sx = saturating_square(dx);
    let sy = saturating_square(dy);
    if sx > i64::MAX - sy {
        i64::MAX
    } else {
        sx + sy
    }
}

fn saturating_square(v: i64) -> (r: i64)
    requires
        v >= 0,
    ensures
        r == sat_i64(v * v),
        r >= 0,
{
    if v != 0 && v > i64::MAX / v {
        proof {
            assert(v * v > i64::MAX) by (nonlinear_arith)
                requires
                    v > 0,
                    v > i64::MAX / v,
            ;
        }
        i64::MAX
    } else {
        proof {
            assert(v * v <= i64::MAX) by (nonlinear_arith)
                requires
                    v >= 0,
                    v == 0 || v <= i64::MAX / v,
            ;
        }
        v * v
    }
}

/// Index of the first saved monitor of a device.
fn find_monitor(ms: &Vec<MonitorConfig>, device: &String) -> (r: Option<usize>)
    ensures
        match find_monitor_from(monitors_view(ms@), device@, 0) {
            Some(i) => r == Some(i as usize),
            None => r is None,
        },
        r matches Some(i) ==> i < ms@.len() && find_monitor_from(monitors_view(ms@), device@, 0)
            == Some(i as int),
{
    proof {
        lemma_find_monitor_from(monitors_view(ms@), device@, 0);
    }
    let mut j: usize = 0;
    while j < ms.len()
        invariant
            j <= ms.len(),
            find_monitor_from(monitors_view(ms@), device@, 0) == find_monitor_from(
                monitors_view(ms@),
                device@,
                j as int,
            ),
        decreases ms.len() - j,
    {
        proof {
            assert(monitors_view(ms@)[j as int] == ms@[j as int]@);
        }
        if ms[j].device_name == *device {
            return Some(j);
        }
        j += 1;
    }
    None
}

/// The grid to show on a monitor.
pub fn grid_for_monitor(state: &AppState, monitor_info: &MonitorConfig) -> (g: GridSpec)
    ensures
        g == spec_grid_for_monitor(
            state.settings@.monitors,
            monitor_info@,
        ),
{
    match find_monitor(&state.settings.monitors, &monitor_info.device_name) {
        Some(i) => {
            proof {
                assert(state.settings@.monitors[i as int] == state.settings.monitors@[i as int]@);
            }
            let m = &state.settings.monitors[i];
            GridSpec::clamped(m.columns, m.rows)
        },
        None => GridSpec::clamped(monitor_info.columns, monitor_info.rows),
    }
}

/// The saved monitor for a point: the first containing it, else the first nearest.
pub fn monitor_for_point(state: &AppState, point: ScreenPoint) -> (m: Option<MonitorConfig>)
    ensures
        match spec_monitor_for_point(state.settings@.monitors, point) {
            Some(i) => m matches Some(c) && c@ == state.settings@.monitors[i],
            None => m is None,
        },
{
    let ms = &state.settings.monitors;
    let ghost view = state.settings@.monitors;
    let mut i: usize = 0;
    while i < ms.len()
        invariant
            i <= ms.len(),
            view == monitors_view(ms@),
            view == state.settings@.monitors,
            first_containing(view, point, 0) == first_containing(view, point, i as int),
        decreases ms.len() - i,
    {
        proof {
            assert(view[i as int] == ms@[i as int]@);
        }
        if ms[i].monitor_rect.contains(point) {
            proof {
                assert(first_containing(view, point, i as int) == Some(i as int));
            }
            return Some(ms[i].clone());
        }
        i += 1;
    }
    if ms.len() == 0 {
        return None;
    }
    let mut best: usize = 0;
    let mut best_distance = point_distance_to_rect_squared(point, ms[0].monitor_rect);
    let mut k: usize = 1;
    proof {
        assert(view[0] == ms@[0]@);
    }
    while k < ms.len()
        invariant
            1 <= k <= ms.len(),
            best < ms.len(),
            view == monitors_view(ms@),
            view == state.settings@.monitors,
            best_distance == spec_distance_squared(point, view[best as int].monitor_rect),
            nearest_from(view, point, 1, 0) == nearest_from(view, point, k as int, best as int),
        decreases ms.len() - k,
    {
        proof {
            assert(view[k as int] == ms@[k as int]@);
        }
        let d = point_distance_to_rect_squared(point, ms[k].monitor_rect);
        if d < best_distance {
            best = k;
            best_distance = d;
        }
        k += 1;
    }
    proof {
        assert(view[best as int] == ms@[best as int]@);
    }
    Some(ms[best].clone())
}

/// The monitor a drag is on, given the monitor the system reports for the point.
pub fn active_monitor_for_point(state: &AppState, point: ScreenPoint, native: MonitorConfig) -> (m:
    MonitorConfig)
    ensures
        m@ == spec_active_monitor(state.settings@.monitors, point, native@),
{
    match find_monitor(&state.settings.monitors, &native.device_name) {
        Some(i) => {
            proof {
                assert(state.settings@.monitors[i as int] == state.settings.monitors@[i as int]@);
            }
            state.settings.monitors[i].clone()
        },
        None => {
            let mut native = native;
            match monitor_for_point(state, point) {
                Some(saved) => {
                    native.columns = saved.columns;
                    native.rows = saved.rows;
                },
                None => {},
            }
            native
        },
    }
}

/// What the app must do after the state changed: redraw or move the overlay, hide it,
/// release the mouse capture, or post itself the message that applies a queued snap.
#[derive(Debug, Clone, Copy, PartialEq, Eq, Structural)]
pub enum Effect {
    /// Show the overlay on this work area (creating or moving it) and redraw it.
    ShowOverlay(ScreenRect),
    RedrawOverlay,
    /// Hide this overlay window.
    HideOverlay(isize),
    ReleaseCapture,
    /// Post the apply-snap message to this window.
    PostApplySnap(isize),
}

/// The part of the state that dragging changes.
pub struct DragView {
    pub left_button_down: bool,
    pub dragging: bool,
    pub suppress_right_up: bool,
    pub target_hwnd: isize,
    pub grid: GridSpec,
    pub monitor_device_name: Seq<char>,
    pub monitor_rect: ScreenRect,
    pub tracker: Option<SelectionTracker>,
    pub selection: Option<GridSelection>,
    pub queued_snap: Option<PendingSnap>,
    pub snap_apply_pending: bool,
    pub settle_snap: Option<PendingSnap>,
}

impl AppState {
    pub open spec fn drag(&self) -> DragView {
        DragView {
            left_button_down: self.left_button_down,
            dragging: self.dragging,
            suppress_right_up: self.suppress_right_up,
            target_hwnd: self.target_hwnd,
            grid: self.grid,
            monitor_device_name: self.monitor_device_name@,
            monitor_rect: self.monitor_rect,
            tracker: self.tracker,
            selection: self.selection,
            queued_snap: self.queued_snap,
            snap_apply_pending: self.snap_apply_pending,
            settle_snap: self.settle_snap,
        }
    }

    /// Everything but the drag state is the same in `self` and `other`.
    pub open spec fn same_besides_drag(&self, other: &AppState) -> bool {
        &&& self.main_hwnd == other.main_hwnd
        &&& self.settings_hwnd == other.settings_hwnd
        &&& self.monitor_edits@ == other.monitor_edits@
        &&& self.grid_color_edit == other.grid_color_edit
        &&& self.selection_color_edit == other.selection_color_edit
        &&& self.selection_border_color_edit == other.selection_border_color_edit
        &&& self.run_startup_checkbox == other.run_startup_checkbox
        &&& self.syncing_settings_ui == other.syncing_settings_ui
        &&& self.settings_dpi == other.settings_dpi
        &&& self.overlay_hwnd == other.overlay_hwnd
        &&& self.hook == other.hook
        &&& self.app_icon == other.app_icon
        &&& self.settings@ == other.settings@
    }
}

/// The grid first shown: that of the first monitor, else two by two.
pub open spec fn spec_initial_grid(ms: Seq<MonitorView>) -> GridSpec {
    if ms.len() > 0 {
        GridSpec::spec_clamped(ms[0].columns, ms[0].rows)
    } else {
        GridSpec::spec_clamped(2, 2)
    }
}

/// Dragging ends: no target, no tracker, no selection.
pub open spec fn spec_cleared(d: DragView) -> DragView {
    DragView { dragging: false, target_hwnd: 0, tracker: None, selection: None, ..d }
}

/// The selection after the pointer moved on the same monitor, and whether it changed.
pub open spec fn spec_update_selection(d: DragView, point: ScreenPoint) -> (DragView, bool) {
    if !d.dragging || d.tracker is None {
        (d, false)
    } else {
        let (t, sel) = d.tracker->0.spec_updated(point);
        let d2 = DragView { tracker: Some(t), ..d };
        if sel != d.selection {
            (DragView { selection: sel, ..d2 }, true)
        } else {
            (d2, false)
        }
    }
}

/// The state after the pointer moved: on another monitor the selection starts over on that
/// monitor's grid (and the overlay moves there); on the same monitor the selection follows.
pub open spec fn spec_update_monitor(
    d: DragView,
    ms: Seq<MonitorView>,
    point: ScreenPoint,
    native: MonitorView,
) -> (DragView, bool, Option<ScreenRect>) {
    if !d.dragging {
        (d, false, None)
    } else {
        let info = spec_active_monitor(ms, point, native);
        let rect = info.work_rect;
        if d.monitor_device_name == info.device_name {
            let (d2, changed) = spec_update_selection(d, point);
            (d2, changed, None)
        } else {
            let grid = spec_grid_for_monitor(ms, info);
            let (t, sel) = SelectionTracker::spec_new(grid, rect).spec_begun(point);
            (
                DragView {
                    grid,
                    monitor_device_name: info.device_name,
                    monitor_rect: rect,
                    tracker: Some(t),
                    selection: sel,
                    ..d
                },
                sel is Some,
                Some(rect),
            )
        }
    }
}

/// The snap that the current selection asks for.
pub open spec fn spec_current_snap(d: DragView) -> Option<PendingSnap> {
    match d.selection {
        None => None,
        Some(sel) => match spec_area_rect(spec_area(sel), d.grid, d.monitor_rect) {
            Some(rect) => Some(PendingSnap { target: d.target_hwnd, rect }),
            None => None,
        },
    }
}

/// Queues a snap; the apply message is posted only when none is pending already.
pub open spec fn spec_queue_snap(d: DragView, snap: PendingSnap, main_hwnd: isize) -> (DragView, Seq<
    Effect,
>) {
    let d2 = DragView { queued_snap: Some(snap), ..d };
    if d.snap_apply_pending {
        (d2, Seq::empty())
    } else {
        (
            DragView { snap_apply_pending: true, ..d2 },
            if main_hwnd != 0 {
                seq![Effect::PostApplySnap(main_hwnd)]
            } else {
                Seq::empty()
            },
        )
    }
}

/// Queues the snap of the current selection, if it asks for one.
pub open spec fn spec_queue_current(d: DragView, main_hwnd: isize) -> (DragView, Seq<Effect>) {
    match spec_current_snap(d) {
        Some(snap) => spec_queue_snap(d, snap, main_hwnd),
        None => (d, Seq::empty()),
    }
}

/// The pointer moved while dragging (or not): follow it, and when the selection changed
/// redraw or move the overlay and queue the new snap.
pub open spec fn spec_update_drag(
    d: DragView,
    ms: Seq<MonitorView>,
    point: ScreenPoint,
    native: MonitorView,
    main_hwnd: isize,
) -> (DragView, Seq<Effect>) {
    let (d2, changed, moved) = spec_update_monitor(d, ms, point, native);
    if changed {
        let shown = match moved {
            Some(rect) => Effect::ShowOverlay(rect),
            None => Effect::RedrawOverlay,
        };
        let (d3, posted) = spec_queue_current(d2, main_hwnd);
        (d3, seq![shown] + posted)
    } else {
        (d2, Seq::empty())
    }
}

/// The drag ends: hide the overlay, release the capture, and queue the final snap.
pub open spec fn spec_finish_drag(d: DragView, overlay_hwnd: isize, main_hwnd: isize) -> (DragView, Seq<
    Effect,
>) {
    let snap = spec_current_snap(d);
    let d2 = spec_cleared(d);
    let hide = if overlay_hwnd != 0 {
        seq![Effect::HideOverlay(overlay_hwnd)]
    } else {
        Seq::empty()
    };
    match snap {
        Some(s) => {
            let (d3, posted) = spec_queue_snap(d2, s, main_hwnd);
            (d3, hide + seq![Effect::ReleaseCapture] + posted)
        },
        None => (d2, hide + seq![Effect::ReleaseCapture]),
    }
}

/// The drag ends at `point`: follow the pointer there first.
pub open spec fn spec_finish_drag_at(
    d: DragView,
    ms: Seq<MonitorView>,
    point: ScreenPoint,
    native: MonitorView,
    overlay_hwnd: isize,
    main_hwnd: isize,
) -> (DragView, Seq<Effect>) {
    let (d2, e1) = spec_update_drag(d, ms, point, native, main_hwnd);
    let (d3, e2) = spec_finish_drag(d2, overlay_hwnd, main_hwnd);
    (d3, e1 + e2)
}

impl AppState {
    /// The state of a freshly started app, with the settings loaded and the physical state
    /// of the left button.
    pub fn new(main_hwnd: isize, app_icon: isize, settings: SettingsData, left_button_down: bool) -> (s:
        Self)
        ensures
            s.main_hwnd == main_hwnd,
            s.app_icon == app_icon,
            s.settings@ == settings@,
            s.left_button_down == left_button_down,
            s.grid == spec_initial_grid(settings@.monitors),
            s.settings_hwnd == 0 && s.overlay_hwnd == 0 && s.hook == 0,
            s.monitor_edits@.len() == 0,
            s.grid_color_edit == 0 && s.selection_color_edit == 0 && s.selection_border_color_edit
                == 0 && s.run_startup_checkbox == 0,
            !s.syncing_settings_ui,
            s.settings_dpi == 96,
            !s.dragging && !s.suppress_right_up && s.target_hwnd == 0,
            s.monitor_device_name@.len() == 0,
            s.monitor_rect == (ScreenRect { x: 0, y: 0, width: 1, height: 1 }),
            s.tracker is None && s.selection is None && s.queued_snap is None,
            !s.snap_apply_pending && s.settle_snap is None,
    {
        let grid = if settings.monitors.len() > 0 {
            proof {
                assert(settings@.monitors[0] == settings.monitors@[0]@);
            }
            GridSpec::clamped(settings.monitors[0].columns, settings.monitors[0].rows)
        } else {
            default_grid()
        };
        AppState {
            main_hwnd,
            settings_hwnd: 0,
            monitor_edits: Vec::new(),
            grid_color_edit: 0,
            selection_color_edit: 0,
            selection_border_color_edit: 0,
            run_startup_checkbox: 0,
            syncing_settings_ui: false,
            settings_dpi: 96,
            overlay_hwnd: 0,
            hook: 0,
            app_icon,
            left_button_down,
            dragging: false,
            suppress_right_up: false,
            target_hwnd: 0,
            grid,
            settings,
            monitor_device_name: String::new(),
            monitor_rect: ScreenRect::new(0, 0, 1, 1),
            tracker: None,
            selection: None,
            queued_snap: None,
            snap_apply_pending: false,
            settle_snap: None,
        }
    }

    /// Forgets the drag.
    pub fn clear_drag(&mut self)
        ensures
            final(self).drag() == spec_cleared(old(self).drag()),
            final(self).same_besides_drag(old(self)),
    {
        self.dragging = false;
        self.target_hwnd = 0;
        self.tracker = None;
        self.selection = None;
    }
}

/// Follows the pointer on the current monitor; reports whether the selection changed.
pub fn update_drag_selection_in_state(state: &mut AppState, point: ScreenPoint) -> (changed: bool)
    ensures
        (final(state).drag(), changed) == spec_update_selection(old(state).drag(), point),
        final(state).same_besides_drag(old(state)),
{
    if !state.dragging {
        return false;
    }
    let mut tracker = match state.tracker {
        Some(t) => t,
        None => return false,
    };
    let selection = tracker.update(point);
    state.tracker = Some(tracker);
    if selection != state.selection {
        state.selection = selection;
        return true;
    }
    false
}

/// Follows the pointer, switching to the grid of another monitor when it moved there.
/// `native` is the monitor the system reports for the point. Reports whether the selection
/// changed, and the new monitor's work area when it switched.
pub fn update_drag_monitor_and_selection(state: &mut AppState, point: ScreenPoint, native: MonitorConfig) -> (r: (
    bool,
    Option<ScreenRect>,
))
    ensures
        ({
            let (d, changed, moved) = spec_update_monitor(
                old(state).drag(),
                old(state).settings@.monitors,
                point,
                native@,
            );
            final(state).drag() == d && r == (changed, moved)
        }),
        final(state).same_besides_drag(old(state)),
{
    if !state.dragging {
        return (false, None);
    }
    let monitor_info = active_monitor_for_point(state, point, native);
    let monitor_rect = monitor_info.work_rect;
    if state.monitor_device_name == monitor_info.device_name {
        return (update_drag_selection_in_state(state, point), None);
    }
    let grid = grid_for_monitor(state, &monitor_info);
    let mut tracker = SelectionTracker::new(grid, monitor_rect);
    let selection = tracker.begin(point);

    state.grid = grid;
    state.monitor_device_name = monitor_info.device_name;
    state.monitor_rect = monitor_rect;
    state.tracker = Some(tracker);
    state.selection = selection;

    (selection.is_some(), Some(monitor_rect))
}

/// The snap that the current selection asks for.
pub fn current_snap(state: &AppState) -> (s: Option<PendingSnap>)
    ensures
        s == spec_current_snap(state.drag()),
{
    let selection = match state.selection {
        Some(s) => s,
        None => return None,
    };
    match selection.screen_rect(state.grid, state.monitor_rect) {
        Some(rect) => Some(PendingSnap { target: state.target_hwnd, rect }),
        None => None,
    }
}

/// Queues a snap for the app window to apply.
pub fn queue_snap(state: &mut AppState, snap: PendingSnap, effects: &mut Vec<Effect>)
    ensures
        ({
            let (d, posted) = spec_queue_snap(old(state).drag(), snap, old(state).main_hwnd);
            final(state).drag() == d && final(effects)@ == old(effects)@ + posted
        }),
        final(state).same_besides_drag(old(state)),
{
    state.queued_snap = Some(snap);
    if state.snap_apply_pending {
        proof {
            assert(old(effects)@ + Seq::<Effect>::empty() =~= old(effects)@);
        }
        return;
    }
    state.snap_apply_pending = true;
    if state.main_hwnd != 0 {
        effects.push(Effect::PostApplySnap(state.main_hwnd));
        proof {
            assert(effects@ =~= old(effects)@ + seq![Effect::PostApplySnap(old(state).main_hwnd)]);
        }
    } else {
        proof {
            assert(old(effects)@ + Seq::<Effect>::empty() =~= old(effects)@);
        }
    }
}

/// Queues the snap of the current selection, if it asks for one.
pub fn queue_current_snap(state: &mut AppState, effects: &mut Vec<Effect>)
    ensures
        ({
            let (d, posted) = spec_queue_current(old(state).drag(), old(state).main_hwnd);
            final(state).drag() == d && final(effects)@ == old(effects)@ + posted
        }),
        final(state).same_besides_drag(old(state)),
{
    match current_snap(state) {
        Some(snap) => queue_snap(state, snap, effects),
        None => {
            proof {
                assert(old(effects)@ + Seq::<Effect>::empty() =~= old(effects)@);
            }
        },
    }
}

/// Follows the pointer; when the selection changed, redraws or moves the overlay and
/// queues the new snap.
pub fn update_drag(state: &mut AppState, point: ScreenPoint, native: MonitorConfig, effects: &mut Vec<Effect>)
    ensures
        ({
            let (d, fx) = spec_update_drag(
                old(state).drag(),
                old(state).settings@.monitors,
                point,
                native@,
                old(state).main_hwnd,
            );
            final(state).drag() == d && final(effects)@ == old(effects)@ + fx
        }),
        final(state).same_besides_drag(old(state)),
{
    let (changed, new_overlay_monitor) = update_drag_monitor_and_selection(state, point, native);
    if changed {
        let ghost before = effects@;
        match new_overlay_monitor {
            Some(monitor) => effects.push(Effect::ShowOverlay(monitor)),
            None => effects.push(Effect::RedrawOverlay),
        }
        let ghost shown = effects@.last();
        queue_current_snap(state, effects);
        proof {
            assert(effects@ =~= before + (seq![shown] + spec_queue_current(
                spec_update_monitor(old(state).drag(), old(state).settings@.monitors, point, native@).0,
                old(state).main_hwnd,
            ).1));
        }
    } else {
        proof {
            assert(old(effects)@ + Seq::<Effect>::empty() =~= old(effects)@);
        }
    }
}

/// Ends the drag: hides the overlay, releases the capture and queues the final snap.
pub fn finish_drag(state: &mut AppState, effects: &mut Vec<Effect>)
    ensures
        ({
            let (d, fx) = spec_finish_drag(old(state).drag(), old(state).overlay_hwnd, old(state).main_hwnd);
            final(state).drag() == d && final(effects)@ == old(effects)@ + fx
        }),
        final(state).same_besides_drag(old(state)),
{
    let overlay = state.overlay_hwnd;
    let snap = current_snap(state);
    state.clear_drag();
    let ghost before = effects@;
    if overlay != 0 {
        effects.push(Effect::HideOverlay(overlay));
    }
    effects.push(Effect::ReleaseCapture);
    let ghost mid = effects@;
    proof {
        let hide = if overlay != 0 {
            seq![Effect::HideOverlay(overlay)]
        } else {
            Seq::<Effect>::empty()
        };
        assert(mid =~= before + (hide + seq![Effect::ReleaseCapture]));
    }
    match snap {
        Some(snap) => {
            queue_snap(state, snap, effects);
            proof {
                let hide = if overlay != 0 {
                    seq![Effect::HideOverlay(overlay)]
                } else {
                    Seq::<Effect>::empty()
                };
                let posted = spec_queue_snap(spec_cleared(old(state).drag()), snap, old(state).main_hwnd).1;
                assert(effects@ =~= before + (hide + seq![Effect::ReleaseCapture] + posted));
            }
        },
        None => {},
    }
}

/// Ends the drag at `point`, following the pointer there first.
pub fn finish_drag_at(state: &mut AppState, point: ScreenPoint, native: MonitorConfig, effects: &mut Vec<Effect>)
    ensures
        ({
            let (d, fx) = spec_finish_drag_at(
                old(state).drag(),
                old(state).settings@.monitors,
                point,
                native@,
                old(state).overlay_hwnd,
                old(state).main_hwnd,
            );
            final(state).drag() == d && final(effects)@ == old(effects)@ + fx
        }),
        final(state).same_besides_drag(old(state)),
{
    update_drag(state, point, native, effects);
    let ghost mid = effects@;
    finish_drag(state, effects);
    proof {
        let (d2, e1) = spec_update_drag(
            old(state).drag(),
            old(state).settings@.monitors,
            point,
            native@,
            old(state).main_hwnd,
        );
        let e2 = spec_finish_drag(d2, old(state).overlay_hwnd, old(state).main_hwnd).1;
        assert(effects@ =~= old(effects)@ + (e1 + e2));
    }
}

/// Starts dragging `target` from `point`: the selection begins on the grid of the monitor
/// under the pointer, the overlay shows on its work area, and the first snap is queued.
pub fn begin_drag(state: &mut AppState, target: isize, point: ScreenPoint, native: MonitorConfig) -> (effects: Vec<Effect>)
    ensures
        ({
            let ms = old(state).settings@.monitors;
            let info = spec_active_monitor(ms, point, native@);
            let grid = spec_grid_for_monitor(ms, info);
            let (t, sel) = SelectionTracker::spec_new(grid, info.work_rect).spec_begun(point);
            let d = DragView {
                dragging: true,
                target_hwnd: target,
                grid,
                monitor_device_name: info.device_name,
                monitor_rect: info.work_rect,
                tracker: Some(t),
                selection: sel,
                ..old(state).drag()
            };
            let (d2, posted) = spec_queue_current(d, old(state).main_hwnd);
            final(state).drag() == d2 && effects@ == seq![Effect::ShowOverlay(info.work_rect)] + posted
        }),
        final(state).same_besides_drag(old(state)),
{
    let monitor_info = active_monitor_for_point(state, point, native);
    let grid = grid_for_monitor(state, &monitor_info);
    let monitor_rect = monitor_info.work_rect;
    let mut tracker = SelectionTracker::new(grid, monitor_rect);
    let selection = tracker.begin(point);

    state.dragging = true;
    state.target_hwnd = target;
    state.grid = grid;
    state.monitor_device_name = monitor_info.device_name;
    state.monitor_rect = monitor_rect;
    state.tracker = Some(tracker);
    state.selection = selection;

    let mut effects: Vec<Effect> = Vec::new();
    effects.push(Effect::ShowOverlay(monitor_rect));
    queue_current_snap(state, &mut effects);
    effects
}

pub const WM_MOUSEMOVE: u32 = 0x0200;

pub const WM_LBUTTONDOWN: u32 = 0x0201;

pub const WM_LBUTTONUP: u32 = 0x0202;

pub const WM_RBUTTONDOWN: u32 = 0x0204;

pub const WM_RBUTTONUP: u32 = 0x0205;

/// What became of a mouse message.
#[derive(Debug, Clone, Copy, PartialEq, Eq, Structural)]
pub enum MouseOutcome {
    /// Handled; `true` when the message must not reach other applications.
    Done(bool),
    /// A right press while the left button is held: the caller checks whether the window
    /// under the pointer is in its move/size loop and, if so, starts a drag.
    CheckDragTarget,
}

/// Whether handling `message` needs the monitor that the system reports for the point.
pub open spec fn spec_needs_native_monitor(dragging: bool, message: u32) -> bool {
    dragging && (message == WM_MOUSEMOVE || message == WM_LBUTTONUP || message == WM_RBUTTONDOWN)
}

pub fn needs_native_monitor(state: &AppState, message: u32) -> (b: bool)
    ensures
        b == spec_needs_native_monitor(state.dragging, message),
{
    state.dragging && (message == WM_MOUSEMOVE || message == WM_LBUTTONUP || message
        == WM_RBUTTONDOWN)
}

/// The outcome, drag state and effects of a low-level mouse message. `left_down` is the
/// physical state of the left button now; `native` is the monitor the system reports for
/// the point, needed while dragging.
pub open spec fn spec_mouse_message(
    d: DragView,
    ms: Seq<MonitorView>,
    message: u32,
    point: ScreenPoint,
    left_down: bool,
    native: MonitorView,
    overlay_hwnd: isize,
    main_hwnd: isize,
) -> (MouseOutcome, DragView, Seq<Effect>) {
    if message == WM_MOUSEMOVE {
        let (d2, fx) = if d.dragging && !left_down {
            spec_finish_drag_at(d, ms, point, native, overlay_hwnd, main_hwnd)
        } else {
            spec_update_drag(d, ms, point, native, main_hwnd)
        };
        (MouseOutcome::Done(false), d2, fx)
    } else if message == WM_LBUTTONDOWN {
        (MouseOutcome::Done(false), DragView { left_button_down: true, ..d }, Seq::empty())
    } else if message == WM_LBUTTONUP {
        let d1 = DragView { left_button_down: false, ..d };
        if d.dragging {
            let (d2, fx) = spec_finish_drag_at(d1, ms, point, native, overlay_hwnd, main_hwnd);
            (MouseOutcome::Done(false), d2, fx)
        } else {
            (MouseOutcome::Done(false), d1, Seq::empty())
        }
    } else if message == WM_RBUTTONDOWN {
        let d1 = DragView { left_button_down: left_down, ..d };
        if d.dragging {
            let (d2, fx) = spec_finish_drag_at(d1, ms, point, native, overlay_hwnd, main_hwnd);
            (MouseOutcome::Done(true), DragView { suppress_right_up: true, ..d2 }, fx)
        } else if !left_down {
            (MouseOutcome::Done(false), d1, Seq::empty())
        } else {
            (MouseOutcome::CheckDragTarget, d1, Seq::empty())
        }
    } else if message == WM_RBUTTONUP {
        if d.suppress_right_up {
            (MouseOutcome::Done(true), DragView { suppress_right_up: false, ..d }, Seq::empty())
        } else {
            (MouseOutcome::Done(d.dragging), d, Seq::empty())
        }
    } else {
        (MouseOutcome::Done(false), d, Seq::empty())
    }
}

/// Handles a low-level mouse message. A right release that ends or starts a drag is
/// swallowed, and so is every right click while dragging.
pub fn handle_mouse_message(
    state: &mut AppState,
    message: u32,
    point: ScreenPoint,
    left_down: bool,
    native: Option<MonitorConfig>,
) -> (r: (MouseOutcome, Vec<Effect>))
    requires
        spec_needs_native_monitor(old(state).dragging, message) ==> native is Some,
    ensures
        ({
            let n = match native {
                Some(m) => m@,
                None => arbitrary(),
            };
            let (outcome, d, fx) = spec_mouse_message(
                old(state).drag(),
                old(state).settings@.monitors,
                message,
                point,
                left_down,
                n,
                old(state).overlay_hwnd,
                old(state).main_hwnd,
            );
            r.0 == outcome && final(state).drag() == d && r.1@ == fx
        }),
        final(state).same_besides_drag(old(state)),
        old(state).dragging && (message == WM_LBUTTONUP || message == WM_RBUTTONDOWN || (message
            == WM_MOUSEMOVE && !left_down)) ==> {
            &&& !final(state).dragging
            &&& final(state).target_hwnd == 0
            &&& final(state).tracker is None
            &&& final(state).selection is None
            &&& r.1@.contains(Effect::ReleaseCapture)
        },
        old(state).dragging && message == WM_MOUSEMOVE && !left_down ==> (spec_current_snap(
            spec_update_drag(
                old(state).drag(),
                old(state).settings@.monitors,
                point,
                native->0@,
                old(state).main_hwnd,
            ).0,
        ) matches Some(snap) ==> final(state).queued_snap == Some(snap)),
        message == WM_LBUTTONDOWN ==> final(state).left_button_down && r.0 == MouseOutcome::Done(
            false,
        ) && r.1@.len() == 0,
        message == WM_LBUTTONUP ==> !final(state).left_button_down && r.0 == MouseOutcome::Done(
            false,
        ),
        message == WM_RBUTTONDOWN ==> r.0 == (if old(state).dragging {
            MouseOutcome::Done(true)
        } else if left_down {
            MouseOutcome::CheckDragTarget
        } else {
            MouseOutcome::Done(false)
        }),
        message == WM_RBUTTONDOWN && old(state).dragging ==> final(state).suppress_right_up,
        message == WM_RBUTTONUP ==> r.0 == MouseOutcome::Done(
            old(state).suppress_right_up || old(state).dragging,
        ) && !final(state).suppress_right_up && r.1@.len() == 0,
        message == WM_MOUSEMOVE ==> r.0 == MouseOutcome::Done(false),
        !old(state).dragging && message == WM_MOUSEMOVE ==> final(state).drag() == old(
            state,
        ).drag() && r.1@.len() == 0,
{
    proof {
        if old(state).dragging {
            let n = native->0@;
            if message == WM_MOUSEMOVE && !left_down {
                lemma_move_with_left_up_ends_drag(
                    old(state).drag(),
                    old(state).settings@.monitors,
                    point,
                    n,
                    old(state).overlay_hwnd,
                    old(state).main_hwnd,
                );
            }
            if message == WM_LBUTTONUP || message == WM_RBUTTONDOWN {
                lemma_release_or_right_click_ends_drag(
                    old(state).drag(),
                    old(state).settings@.monitors,
                    message,
                    point,
                    left_down,
                    n,
                    old(state).overlay_hwnd,
                    old(state).main_hwnd,
                );
            }
        }
    }
    let mut effects: Vec<Effect> = Vec::new();
    if message == WM_MOUSEMOVE {
        if state.dragging {
            let native = match native {
                Some(m) => m,
                None => {
                    assert(false);
                    return (MouseOutcome::Done(false), effects);
                },
            };
            if !left_down {
                finish_drag_at(state, point, native, &mut effects);
            } else {
                update_drag(state, point, native, &mut effects);
            }
        } else {
            proof {
                assert(spec_update_monitor(old(state).drag(), old(state).settings@.monitors, point, arbitrary()).1 == false);
            }
        }
        (MouseOutcome::Done(false), effects)
    } else if message == WM_LBUTTONDOWN {
        state.left_button_down = true;
        (MouseOutcome::Done(false), effects)
    } else if message == WM_LBUTTONUP {
        state.left_button_down = false;
        if state.dragging {
            let native = match native {
                Some(m) => m,
                None => {
                    assert(false);
                    return (MouseOutcome::Done(false), effects);
                },
            };
            finish_drag_at(state, point, native, &mut effects);
        }
        (MouseOutcome::Done(false), effects)
    } else if message == WM_RBUTTONDOWN {
        state.left_button_down = left_down;
        if state.dragging {
            let native = match native {
                Some(m) => m,
                None => {
                    assert(false);
                    return (MouseOutcome::Done(false), effects);
                },
            };
            finish_drag_at(state, point, native, &mut effects);
            state.suppress_right_up = true;
            return (MouseOutcome::Done(true), effects);
        }
        if !left_down {
            return (MouseOutcome::Done(false), effects);
        }
        (MouseOutcome::CheckDragTarget, effects)
    } else if message == WM_RBUTTONUP {
        if state.suppress_right_up {
            state.suppress_right_up = false;
            (MouseOutcome::Done(true), effects)
        } else {
            (MouseOutcome::Done(state.dragging), effects)
        }
    } else {
        (MouseOutcome::Done(false), effects)
    }
}

/// Continues a right press that asked to check the target (`MouseOutcome::CheckDragTarget`):
/// when there is a target window and it is in its move/size loop, the right release is
/// claimed, so that it will be swallowed, and `true` tells the caller to cancel the native
/// loop and start the drag; either way the right press itself is swallowed only when `true`.
pub fn claim_drag_target(state: &mut AppState, target: Option<isize>, in_move_size_loop: bool) -> (claimed: bool)
    ensures
        claimed == (target is Some && in_move_size_loop),
        final(state).drag() == (if claimed {
            DragView { suppress_right_up: true, ..old(state).drag() }
        } else {
            old(state).drag()
        }),
        final(state).same_besides_drag(old(state)),
{
    if target.is_some() && in_move_size_loop {
        state.suppress_right_up = true;
        true
    } else {
        false
    }
}

/// Takes the queued snap to apply it; the next queued snap will post a new message.
pub fn take_queued_snap(state: &mut AppState) -> (snap: Option<PendingSnap>)
    ensures
        snap == old(state).queued_snap,
        final(state).drag() == (DragView {
            snap_apply_pending: false,
            queued_snap: None,
            ..old(state).drag()
        }),
        final(state).same_besides_drag(old(state)),
{
    state.snap_apply_pending = false;
    let snap = state.queued_snap;
    state.queued_snap = None;
    snap
}

/// Keeps an applied snap to apply once more when the settle timer fires; returns the window
/// that owns the timer.
pub fn queue_snap_settle(state: &mut AppState, snap: PendingSnap) -> (timer_owner: isize)
    ensures
        timer_owner == old(state).main_hwnd,
        final(state).drag() == (DragView { settle_snap: Some(snap), ..old(state).drag() }),
        final(state).same_besides_drag(old(state)),
{
    state.settle_snap = Some(snap);
    state.main_hwnd
}

/// Takes the snap kept for the settle timer.
pub fn take_settle_snap(state: &mut AppState) -> (snap: Option<PendingSnap>)
    ensures
        snap == old(state).settle_snap,
        final(state).drag() == (DragView { settle_snap: None, ..old(state).drag() }),
        final(state).same_besides_drag(old(state)),
{
    let snap = state.settle_snap;
    state.settle_snap = None;
    snap
}

/// The monitor a drag is on is always the device the system reports under the pointer;
/// the saved monitors supply its grid size and areas, never which monitor it is.
pub proof fn lemma_active_monitor_is_native(ms: Seq<MonitorView>, point: ScreenPoint, native: MonitorView)
    ensures
        spec_active_monitor(ms, point, native).device_name == native.device_name,
{
    lemma_find_monitor_from(ms, native.device_name, 0);
}

/// Releasing the left button or pressing the right one while dragging ends the drag: no
/// target, tracker or selection is left, the capture is released, and the snap of the
/// selection (as the pointer left it) is queued.
pub proof fn lemma_release_or_right_click_ends_drag(
    d: DragView,
    ms: Seq<MonitorView>,
    message: u32,
    point: ScreenPoint,
    left_down: bool,
    native: MonitorView,
    overlay_hwnd: isize,
    main_hwnd: isize,
)
    requires
        d.dragging,
        message == WM_LBUTTONUP || message == WM_RBUTTONDOWN,
    ensures
        ({
            let (outcome, d2, fx) = spec_mouse_message(
                d,
                ms,
                message,
                point,
                left_down,
                native,
                overlay_hwnd,
                main_hwnd,
            );
            let followed = spec_update_drag(
                DragView {
                    left_button_down: if message == WM_LBUTTONUP {
                        false
                    } else {
                        left_down
                    },
                    ..d
                },
                ms,
                point,
                native,
                main_hwnd,
            ).0;
            &&& !d2.dragging
            &&& d2.target_hwnd == 0
            &&& d2.tracker is None
            &&& d2.selection is None
            &&& fx.contains(Effect::ReleaseCapture)
            &&& (spec_current_snap(followed) matches Some(snap) ==> d2.queued_snap == Some(snap))
            &&& outcome == MouseOutcome::Done(message == WM_RBUTTONDOWN)
        }),
{
    let d1 = DragView {
        left_button_down: if message == WM_LBUTTONUP {
            false
        } else {
            left_down
        },
        ..d
    };
    let (followed, e1) = spec_update_drag(d1, ms, point, native, main_hwnd);
    let (d3, e2) = spec_finish_drag(followed, overlay_hwnd, main_hwnd);
    let hide = if overlay_hwnd != 0 {
        seq![Effect::HideOverlay(overlay_hwnd)]
    } else {
        Seq::<Effect>::empty()
    };
    let k: int = (e1.len() + hide.len()) as int;
    match spec_current_snap(followed) {
        Some(s) => {
            let posted = spec_queue_snap(spec_cleared(followed), s, main_hwnd).1;
            assert(e2 == hide + seq![Effect::ReleaseCapture] + posted);
            assert((e1 + e2)[k] == Effect::ReleaseCapture);
        },
        None => {
            assert(e2 == hide + seq![Effect::ReleaseCapture]);
            assert((e1 + e2)[k] == Effect::ReleaseCapture);
        },
    }
}

/// Pointer moves outside a drag change nothing and have no effect.
pub proof fn lemma_moves_outside_a_drag_do_nothing(
    d: DragView,
    ms: Seq<MonitorView>,
    point: ScreenPoint,
    left_down: bool,
    native: MonitorView,
    overlay_hwnd: isize,
    main_hwnd: isize,
)
    requires
        !d.dragging,
    ensures
        spec_mouse_message(d, ms, WM_MOUSEMOVE, point, left_down, native, overlay_hwnd, main_hwnd)
            == (MouseOutcome::Done(false), d, Seq::<Effect>::empty()),
{
}

/// A pointer move that arrives while dragging with the left button already up ends the
/// drag there, as a release would: the pointer is followed to the point, then no target,
/// tracker or selection is left, the capture is released, and the snap of the selection at
/// that point is queued.
pub proof fn lemma_move_with_left_up_ends_drag(
    d: DragView,
    ms: Seq<MonitorView>,
    point: ScreenPoint,
    native: MonitorView,
    overlay_hwnd: isize,
    main_hwnd: isize,
)
    requires
        d.dragging,
    ensures
        ({
            let (outcome, d2, fx) = spec_mouse_message(
                d,
                ms,
                WM_MOUSEMOVE,
                point,
                false,
                native,
                overlay_hwnd,
                main_hwnd,
            );
            let followed = spec_update_drag(d, ms, point, native, main_hwnd).0;
            &&& !d2.dragging
            &&& d2.target_hwnd == 0
            &&& d2.tracker is None
            &&& d2.selection is None
            &&& fx.contains(Effect::ReleaseCapture)
            &&& (spec_current_snap(followed) matches Some(snap) ==> d2.queued_snap == Some(snap))
            &&& outcome == MouseOutcome::Done(false)
        }),
{
    let (followed, e1) = spec_update_drag(d, ms, point, native, main_hwnd);
    let (d3, e2) = spec_finish_drag(followed, overlay_hwnd, main_hwnd);
    let hide = if overlay_hwnd != 0 {
        seq![Effect::HideOverlay(overlay_hwnd)]
    } else {
        Seq::<Effect>::empty()
    };
    let k: int = (e1.len() + hide.len()) as int;
    match spec_current_snap(followed) {
        Some(s) => {
            let posted = spec_queue_snap(spec_cleared(followed), s, main_hwnd).1;
            assert(e2 == hide + seq![Effect::ReleaseCapture] + posted);
            assert((e1 + e2)[k] == Effect::ReleaseCapture);
        },
        None => {
            assert(e2 == hide + seq![Effect::ReleaseCapture]);
            assert((e1 + e2)[k] == Effect::ReleaseCapture);
        },
    }
}

} // verus!
