//! Persisted settings: per-monitor grid sizes, overlay colors and startup preferences,
//! and how stored settings are combined with the monitors that are attached now.
use vstd::prelude::*;

use crate::color::{
    normalize_stored_hex_color, spec_normalize_stored, DEFAULT_GRID_COLOR,
    DEFAULT_SELECTION_BORDER_COLOR, DEFAULT_SELECTION_COLOR,
};
use crate::geometry::ScreenRect;
use crate::grid::GridSpec;
use crate::text::{chars_of, string_of};

verus! {

pub const MIN_GRID_SETTING: u16 = 1;

/// Largest grid dimension the settings accept.
pub const MAX_GRID_SETTING: u16 = 20;

/// A monitor as currently attached, with the grid size chosen for it.
#[derive(Debug)]
pub struct MonitorConfig {
    pub device_name: String,
    pub display_name: String,
    pub monitor_rect: ScreenRect,
    pub work_rect: ScreenRect,
    pub columns: u16,
    pub rows: u16,
}

pub struct MonitorView {
    pub device_name: Seq<char>,
    pub display_name: Seq<char>,
    pub monitor_rect: ScreenRect,
    pub work_rect: ScreenRect,
    pub columns: u16,
    pub rows: u16,
}

impl View for MonitorConfig {
    type V = MonitorView;

    open spec fn view(&self) -> MonitorView {
        MonitorView {
            device_name: self.device_name@,
            display_name: self.display_name@,
            monitor_rect: self.monitor_rect,
            work_rect: self.work_rect,
            columns: self.columns,
            rows: self.rows,
        }
    }
}

impl Clone for MonitorConfig {
    fn clone(&self) -> (r: Self)
        ensures
            r == *self,
    {
        MonitorConfig {
            device_name: self.device_name.clone(),
            display_name: self.display_name.clone(),
            monitor_rect: self.monitor_rect,
            work_rect: self.work_rect,
            columns: self.columns,
            rows: self.rows,
        }
    }
}

/// A monitor's grid size as saved in the settings file.
#[derive(Debug)]
pub struct StoredMonitorConfig {
    pub device_name: String,
    pub display_name: String,
    pub columns: u16,
    pub rows: u16,
}

pub struct StoredMonitorView {
    pub device_name: Seq<char>,
    pub display_name: Seq<char>,
    pub columns: u16,
    pub rows: u16,
}

impl View for StoredMonitorConfig {
    type V = StoredMonitorView;

    open spec fn view(&self) -> StoredMonitorView {
        StoredMonitorView {
            device_name: self.device_name@,
            display_name: self.display_name@,
            columns: self.columns,
            rows: self.rows,
        }
    }
}

impl Clone for StoredMonitorConfig {
    fn clone(&self) -> (r: Self)
        ensures
            r == *self,
    {
        StoredMonitorConfig {
            device_name: self.device_name.clone(),
            display_name: self.display_name.clone(),
            columns: self.columns,
            rows: self.rows,
        }
    }
}

/// The live settings of the running app.
#[derive(Debug)]
pub struct SettingsData {
    pub monitors: Vec<MonitorConfig>,
    pub grid_color: String,
    pub selection_color: String,
    pub selection_border_color: String,
    pub run_on_startup: bool,
    pub is_dark_mode: bool,
}

pub struct SettingsView {
    pub monitors: Seq<MonitorView>,
    pub grid_color: Seq<char>,
    pub selection_color: Seq<char>,
    pub selection_border_color: Seq<char>,
    pub run_on_startup: bool,
    pub is_dark_mode: bool,
}

pub open spec fn monitors_view(ms: Seq<MonitorConfig>) -> Seq<MonitorView> {
    ms.map_values(|m: MonitorConfig| m@)
}

impl View for SettingsData {
    type V = SettingsView;

    open spec fn view(&self) -> SettingsView {
        SettingsView {
            monitors: monitors_view(self.monitors@),
            grid_color: self.grid_color@,
            selection_color: self.selection_color@,
            selection_border_color: self.selection_border_color@,
            run_on_startup: self.run_on_startup,
            is_dark_mode: self.is_dark_mode,
        }
    }
}

impl Clone for SettingsData {
    fn clone(&self) -> (r: Self)
        ensures
            r@ == self@,
    {
        let mut monitors: Vec<MonitorConfig> = Vec::new();
        let mut i: usize = 0;
        while i < self.monitors.len()
            invariant
                i <= self.monitors.len(),
                monitors@.len() == i,
                forall|k: int| 0 <= k < i ==> #[trigger] monitors@[k] == self.monitors@[k],
            decreases self.monitors.len() - i,
        {
            monitors.push(self.monitors[i].clone());
            i += 1;
        }
        proof {
            assert(monitors@ =~= self.monitors@);
        }
        SettingsData {
            monitors,
            grid_color: self.grid_color.clone(),
            selection_color: self.selection_color.clone(),
            selection_border_color: self.selection_border_color.clone(),
            run_on_startup: self.run_on_startup,
            is_dark_mode: self.is_dark_mode,
        }
    }
}

/// Settings as read from (or about to be written to) the settings file; the startup and
/// theme choices may be absent.
#[derive(Debug)]
pub struct StoredSettings {
    pub monitors: Vec<StoredMonitorConfig>,
    pub grid_color: String,
    pub selection_color: String,
    pub selection_border_color: String,
    pub run_on_startup: Option<bool>,
    pub is_dark_mode: Option<bool>,
}

pub struct StoredSettingsView {
    pub monitors: Seq<StoredMonitorView>,
    pub grid_color: Seq<char>,
    pub selection_color: Seq<char>,
    pub selection_border_color: Seq<char>,
    pub run_on_startup: Option<bool>,
    pub is_dark_mode: Option<bool>,
}

pub open spec fn stored_monitors_view(ms: Seq<StoredMonitorConfig>) -> Seq<StoredMonitorView> {
    ms.map_values(|m: StoredMonitorConfig| m@)
}

impl View for StoredSettings {
    type V = StoredSettingsView;

    open spec fn view(&self) -> StoredSettingsView {
        StoredSettingsView {
            monitors: stored_monitors_view(self.monitors@),
            grid_color: self.grid_color@,
            selection_color: self.selection_color@,
            selection_border_color: self.selection_border_color@,
            run_on_startup: self.run_on_startup,
            is_dark_mode: self.is_dark_mode,
        }
    }
}

pub open spec fn spec_clamp_grid_setting(value: u16) -> u16 {
    if value < MIN_GRID_SETTING {
        MIN_GRID_SETTING
    } else if value > MAX_GRID_SETTING {
        MAX_GRID_SETTING
    } else {
        value
    }
}

/// Stored settings before anything has been saved.
pub open spec fn spec_default_stored() -> StoredSettingsView {
    StoredSettingsView {
        monitors: Seq::empty(),
        grid_color: DEFAULT_GRID_COLOR@,
        selection_color: DEFAULT_SELECTION_COLOR@,
        selection_border_color: DEFAULT_SELECTION_BORDER_COLOR@,
        run_on_startup: None,
        is_dark_mode: Some(true),
    }
}

/// The stored form of a monitor's settings.
pub open spec fn spec_stored_monitor(m: MonitorView) -> StoredMonitorView {
    StoredMonitorView {
        device_name: m.device_name,
        display_name: m.display_name,
        columns: m.columns,
        rows: m.rows,
    }
}

/// The stored form of live settings.
pub open spec fn spec_stored_from_data(s: SettingsView) -> StoredSettingsView {
    StoredSettingsView {
        monitors: s.monitors.map_values(|m: MonitorView| spec_stored_monitor(m)),
        grid_color: s.grid_color,
        selection_color: s.selection_color,
        selection_border_color: s.selection_border_color,
        run_on_startup: Some(s.run_on_startup),
        is_dark_mode: Some(s.is_dark_mode),
    }
}

/// The monitor assumed when none could be enumerated.
pub open spec fn spec_fallback_monitor() -> MonitorView {
    MonitorView {
        device_name: "DISPLAY"@,
        display_name: "Primary Monitor"@,
        monitor_rect: ScreenRect { x: 0, y: 0, width: 1, height: 1 },
        work_rect: ScreenRect { x: 0, y: 0, width: 1, height: 1 },
        columns: 2,
        rows: 2,
    }
}

/// Index of the first stored monitor with the given device name, searching from `from`.
pub open spec fn find_stored_from(stored: Seq<StoredMonitorView>, device: Seq<char>, from: int) -> Option<
    int,
>
    decreases stored.len() - from,
{
    if from < 0 || from >= stored.len() {
        None
    } else if stored[from].device_name == device {
        Some(from)
    } else {
        find_stored_from(stored, device, from + 1)
    }
}

/// An attached monitor with the saved grid size (and saved name, when the monitor has no
/// friendlier one) of the first stored monitor of the same device.
pub open spec fn spec_merge_monitor(m: MonitorView, stored: Seq<StoredMonitorView>) -> MonitorView {
    match find_stored_from(stored, m.device_name, 0) {
        None => m,
        Some(i) => {
            let s = stored[i];
            MonitorView {
                columns: spec_clamp_grid_setting(s.columns),
                rows: spec_clamp_grid_setting(s.rows),
                display_name: if m.display_name == m.device_name && s.display_name.len() > 0 {
                    s.display_name
                } else {
                    m.display_name
                },
                ..m
            }
        },
    }
}

/// Live settings built from stored settings and the monitors attached now. A missing
/// startup choice is taken from `startup_enabled`, a missing theme is dark.
pub open spec fn spec_merge(
    stored: StoredSettingsView,
    attached: Seq<MonitorView>,
    startup_enabled: bool,
) -> SettingsView {
    let base = if attached.len() == 0 {
        seq![spec_fallback_monitor()]
    } else {
        attached
    };
    SettingsView {
        monitors: base.map_values(|m: MonitorView| spec_merge_monitor(m, stored.monitors)),
        grid_color: spec_normalize_stored(Some(stored.grid_color), DEFAULT_GRID_COLOR@),
        selection_color: spec_normalize_stored(Some(stored.selection_color), DEFAULT_SELECTION_COLOR@),
        selection_border_color: spec_normalize_stored(
            Some(stored.selection_border_color),
            DEFAULT_SELECTION_BORDER_COLOR@,
        ),
        run_on_startup: match stored.run_on_startup {
            Some(b) => b,
            None => startup_enabled,
        },
        is_dark_mode: match stored.is_dark_mode {
            Some(b) => b,
            None => true,
        },
    }
}

pub fn clamp_grid_dimension(value: u16) -> (r: u16)
    ensures
        r == spec_clamp_grid_setting(value),
{
    if value < MIN_GRID_SETTING {
        MIN_GRID_SETTING
    } else if value > MAX_GRID_SETTING {
        MAX_GRID_SETTING
    } else {
        value
    }
}

/// The grid used when nothing else applies: two columns by two rows.
pub fn default_grid() -> (g: GridSpec)
    ensures
        g == GridSpec::spec_clamped(2, 2),
        g.spec_columns() == 2,
        g.spec_rows() == 2,
{
    GridSpec::clamped(2, 2)
}

fn owned(s: &str) -> (r: String)
    ensures
        r@ == s@,
{
    string_of(chars_of(s).as_slice())
}

pub fn default_stored_settings() -> (s: StoredSettings)
    ensures
        s@ == spec_default_stored(),
{
    let s = StoredSettings {
        monitors: Vec::new(),
        grid_color: owned(DEFAULT_GRID_COLOR),
        selection_color: owned(DEFAULT_SELECTION_COLOR),
        selection_border_color: owned(DEFAULT_SELECTION_BORDER_COLOR),
        run_on_startup: None,
        is_dark_mode: Some(true),
    };
    proof {
        assert(s@.monitors =~= Seq::<StoredMonitorView>::empty());
    }
    s
}

pub fn stored_settings_from_data(settings: &SettingsData) -> (s: StoredSettings)
    ensures
        s@ == spec_stored_from_data(settings@),
{
    let mut monitors: Vec<StoredMonitorConfig> = Vec::new();
    let mut i: usize = 0;
    while i < settings.monitors.len()
        invariant
            i <= settings.monitors.len(),
            monitors@.len() == i,
            forall|k: int|
                0 <= k < i ==> #[trigger] monitors@[k]@ == spec_stored_monitor(
                    settings.monitors@[k]@,
                ),
        decreases settings.monitors.len() - i,
    {
        let m = &settings.monitors[i];
        monitors.push(
            StoredMonitorConfig {
                device_name: m.device_name.clone(),
                display_name: m.display_name.clone(),
                columns: m.columns,
                rows: m.rows,
            },
        );
        i += 1;
    }
    proof {
        assert(stored_monitors_view(monitors@) =~= monitors_view(settings.monitors@).map_values(
            |m: MonitorView| spec_stored_monitor(m),
        ));
    }
    StoredSettings {
        monitors,
        grid_color: settings.grid_color.clone(),
        selection_color: settings.selection_color.clone(),
        selection_border_color: settings.selection_border_color.clone(),
        run_on_startup: Some(settings.run_on_startup),
        is_dark_mode: Some(settings.is_dark_mode),
    }
}

/// A found index is in range and names the device.
pub proof fn lemma_find_stored_from(stored: Seq<StoredMonitorView>, device: Seq<char>, from: int)
    ensures
        find_stored_from(stored, device, from) matches Some(i) ==> from <= i < stored.len()
            && stored[i].device_name == device,
    decreases stored.len() - from,
{
    if 0 <= from < stored.len() && stored[from].device_name != device {
        lemma_find_stored_from(stored, device, from + 1);
    }
}

/// The search finds the first stored monitor of the device from `from` on, and finds
/// nothing only when there is none.
proof fn lemma_find_stored_first(stored: Seq<StoredMonitorView>, device: Seq<char>, from: int)
    requires
        0 <= from,
    ensures
        match find_stored_from(stored, device, from) {
            Some(i) => from <= i < stored.len() && stored[i].device_name == device && forall|
                j: int,
            |
                from <= j < i ==> #[trigger] stored[j].device_name != device,
            None => forall|j: int| from <= j < stored.len() ==> #[trigger] stored[j].device_name
                != device,
        },
    decreases stored.len() - from,
{
    if from < stored.len() && stored[from].device_name != device {
        lemma_find_stored_first(stored, device, from + 1);
    }
}

/// Merging keeps the attached monitor's device and areas. Its grid size becomes that of
/// the first saved monitor of the same device, limited to the accepted range, and stays as
/// it was when none is saved. Its name changes only when it is just the device name and the
/// saved monitor has a name, which is never empty; so a monitor that has a name keeps one.
pub proof fn lemma_merge_monitor_law(m: MonitorView, stored: Seq<StoredMonitorView>)
    ensures
        ({
            let r = spec_merge_monitor(m, stored);
            &&& r.device_name == m.device_name
            &&& r.monitor_rect == m.monitor_rect
            &&& r.work_rect == m.work_rect
            &&& (forall|j: int| 0 <= j < stored.len() ==> #[trigger] stored[j].device_name
                != m.device_name) ==> r == m
            &&& forall|i: int|
                0 <= i < stored.len() && #[trigger] stored[i].device_name == m.device_name && (
                forall|j: int| 0 <= j < i ==> #[trigger] stored[j].device_name != m.device_name)
                    ==> {
                    &&& r.columns == spec_clamp_grid_setting(stored[i].columns)
                    &&& r.rows == spec_clamp_grid_setting(stored[i].rows)
                    &&& r.display_name == if m.display_name == m.device_name
                        && stored[i].display_name.len() > 0 {
                        stored[i].display_name
                    } else {
                        m.display_name
                    }
                }
            &&& r.display_name != m.display_name ==> m.display_name == m.device_name
                && r.display_name.len() > 0
            &&& m.display_name.len() > 0 ==> r.display_name.len() > 0
        }),
{
    lemma_find_stored_first(stored, m.device_name, 0);
    match find_stored_from(stored, m.device_name, 0) {
        Some(k) => {
            assert forall|i: int|
                0 <= i < stored.len() && #[trigger] stored[i].device_name == m.device_name && (
                forall|j: int| 0 <= j < i ==> #[trigger] stored[j].device_name != m.device_name)
                implies i == k by {
                if i < k {
                    assert(stored[i].device_name != m.device_name);
                }
                if k < i {
                    assert(stored[k].device_name != m.device_name);
                }
            }
        },
        None => {},
    }
}

/// Index of the first stored monitor of `device`.
fn find_stored(stored: &Vec<StoredMonitorConfig>, device: &String) -> (r: Option<usize>)
    ensures
        match find_stored_from(stored_monitors_view(stored@), device@, 0) {
            Some(i) => r == Some(i as usize),
            None => r is None,
        },
        r matches Some(i) ==> i < stored@.len() && find_stored_from(
            stored_monitors_view(stored@),
            device@,
            0,
        ) == Some(i as int),
{
    proof {
        lemma_find_stored_from(stored_monitors_view(stored@), device@, 0);
    }
    let ghost view = stored_monitors_view(stored@);
    let mut j: usize = 0;
    while j < stored.len()
        invariant
            j <= stored.len(),
            view == stored_monitors_view(stored@),
            find_stored_from(view, device@, 0) == find_stored_from(view, device@, j as int),
        decreases stored.len() - j,
    {
        if stored[j].device_name == *device {
            return Some(j);
        }
        j += 1;
    }
    None
}

/// An attached monitor with its saved grid size and name applied.
pub fn merge_monitor(monitor: &MonitorConfig, stored: &Vec<StoredMonitorConfig>) -> (r: MonitorConfig)
    ensures
        r@ == spec_merge_monitor(monitor@, stored_monitors_view(stored@)),
        r@.device_name == monitor@.device_name,
        r@.display_name != monitor@.display_name ==> monitor@.display_name
            == monitor@.device_name && r@.display_name.len() > 0,
        monitor@.display_name.len() > 0 ==> r@.display_name.len() > 0,
{
    proof {
        lemma_merge_monitor_law(monitor@, stored_monitors_view(stored@));
    }
    match find_stored(stored, &monitor.device_name) {
        None => monitor.clone(),
        Some(i) => {
            let s = &stored[i];
            proof {
                assert(stored_monitors_view(stored@)[i as int] == stored@[i as int]@);
            }
            let display_name = if monitor.display_name == monitor.device_name
                && !s.display_name.as_str().is_empty() {
                s.display_name.clone()
            } else {
                monitor.display_name.clone()
            };
            let r = MonitorConfig {
                device_name: monitor.device_name.clone(),
                display_name,
                monitor_rect: monitor.monitor_rect,
                work_rect: monitor.work_rect,
                columns: clamp_grid_dimension(s.columns),
                rows: clamp_grid_dimension(s.rows),
            };
            r
        },
    }
}

fn fallback_monitor() -> (m: MonitorConfig)
    ensures
        m@ == spec_fallback_monitor(),
{
    MonitorConfig {
        device_name: owned("DISPLAY"),
        display_name: owned("Primary Monitor"),
        monitor_rect: ScreenRect::new(0, 0, 1, 1),
        work_rect: ScreenRect::new(0, 0, 1, 1),
        columns: 2,
        rows: 2,
    }
}

/// Live settings from stored settings and the attached monitors. `startup_enabled` is
/// whether a startup shortcut exists now; it decides the startup choice when none was stored.
pub fn merge_monitors(stored: StoredSettings, monitors: Vec<MonitorConfig>, startup_enabled: bool) -> (r:
    SettingsData)
    ensures
        r@ == spec_merge(stored@, monitors_view(monitors@), startup_enabled),
{
    let mut monitors = monitors;
    if monitors.len() == 0 {
        monitors.push(fallback_monitor());
        proof {
            assert(monitors_view(monitors@) =~= seq![spec_fallback_monitor()]);
        }
    }
    let ghost base = monitors_view(monitors@);
    let mut merged: Vec<MonitorConfig> = Vec::new();
    let mut i: usize = 0;
    while i < monitors.len()
        invariant
            i <= monitors.len(),
            base == monitors_view(monitors@),
            merged@.len() == i,
            forall|k: int|
                0 <= k < i ==> #[trigger] merged@[k]@ == spec_merge_monitor(
                    base[k],
                    stored_monitors_view(stored.monitors@),
                ),
        decreases monitors.len() - i,
    {
        merged.push(merge_monitor(&monitors[i], &stored.monitors));
        i += 1;
    }
    let run_on_startup = match stored.run_on_startup {
        Some(b) => b,
        None => startup_enabled,
    };
    let is_dark_mode = match stored.is_dark_mode {
        Some(b) => b,
        None => true,
    };
    let r = SettingsData {
        monitors: merged,
        grid_color: normalize_stored_hex_color(Some(stored.grid_color.as_str()), DEFAULT_GRID_COLOR),
        selection_color: normalize_stored_hex_color(
            Some(stored.selection_color.as_str()),
            DEFAULT_SELECTION_COLOR,
        ),
        selection_border_color: normalize_stored_hex_color(
            Some(stored.selection_border_color.as_str()),
            DEFAULT_SELECTION_BORDER_COLOR,
        ),
        run_on_startup,
        is_dark_mode,
    };
    proof {
        assert(r@.monitors =~= base.map_values(
            |m: MonitorView| spec_merge_monitor(m, stored_monitors_view(stored.monitors@)),
        ));
    }
    r
}

} // verus!
