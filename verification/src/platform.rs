//! The portable contract between the app and a platform backend: opaque native
//! identifiers, window descriptions, input events, permission and startup states,
//! the backend traits and their error type.
use vstd::prelude::*;

use crate::geometry::{ScreenPoint, ScreenRect};
use crate::text::{chars_of, push_chars};

verus! {

pub type PlatformResult<T> = Result<T, PlatformError>;

/// Opaque identifier for a native window controlled by a backend. The raw value
/// means something only to the backend that produced it.
#[derive(Debug, Clone, Copy, PartialEq, Eq, Hash, Structural)]
pub struct ExternalWindowId(u64);

impl ExternalWindowId {
    pub closed spec fn spec_raw(self) -> u64 {
        self.0
    }

    pub fn new(raw: u64) -> (id: Self)
        ensures
            id.spec_raw() == raw,
    {
        ExternalWindowId(raw)
    }

    /// Ids with the same raw value are the same id.
    pub proof fn lemma_ext(a: Self, b: Self)
        requires
            a.spec_raw() == b.spec_raw(),
        ensures
            a == b,
    {
    }

    pub fn raw(self) -> (r: u64)
        ensures
            r == self.spec_raw(),
    {
        self.0
    }
}

/// Opaque identifier for a monitor, as a backend names it.
#[derive(Debug, Clone, Copy, PartialEq, Eq, Hash, Structural)]
pub struct MonitorId(u64);

impl MonitorId {
    pub closed spec fn spec_raw(self) -> u64 {
        self.0
    }

    pub fn new(raw: u64) -> (id: Self)
        ensures
            id.spec_raw() == raw,
    {
        MonitorId(raw)
    }

    /// Ids with the same raw value are the same id.
    pub proof fn lemma_ext(a: Self, b: Self)
        requires
            a.spec_raw() == b.spec_raw(),
        ensures
            a == b,
    {
    }

    pub fn raw(self) -> (r: u64)
        ensures
            r == self.spec_raw(),
    {
        self.0
    }
}

/// A top-level window as a backend reports it.
#[derive(Debug, Clone, PartialEq, Eq)]
pub struct WindowInfo {
    pub id: ExternalWindowId,
    pub title: Option<String>,
    pub frame: ScreenRect,
    pub monitor: Option<MonitorId>,
}

impl WindowInfo {
    pub fn new(
        id: ExternalWindowId,
        title: Option<String>,
        frame: ScreenRect,
        monitor: Option<MonitorId>,
    ) -> (w: Self)
        ensures
            w.id == id,
            w.title == title,
            w.frame == frame,
            w.monitor == monitor,
    {
        WindowInfo { id, title, frame, monitor }
    }
}

#[derive(Debug, Clone, Copy, PartialEq, Eq, Structural)]
pub enum PointerButton {
    Left,
    Right,
    Middle,
    Other(u16),
}

#[derive(Debug, Clone, Copy, PartialEq, Eq, Structural)]
pub enum ButtonState {
    Pressed,
    Released,
}

#[derive(Debug, Clone, Copy, PartialEq, Eq, Structural)]
pub enum InputEvent {
    PointerMoved { position: ScreenPoint },
    PointerButton { button: PointerButton, state: ButtonState, position: ScreenPoint },
    Cancelled,
}

#[derive(Debug, Clone, Copy, PartialEq, Eq, Structural)]
pub enum PermissionKind {
    Accessibility,
    InputMonitoring,
    ScreenRecording,
    Automation,
}

#[derive(Debug, Clone, Copy, PartialEq, Eq, Structural)]
pub enum PermissionStatus {
    Granted,
    Denied,
    Unknown,
    NotRequired,
}

#[derive(Debug, Clone, Copy, PartialEq, Eq, Structural)]
pub enum StartupState {
    Enabled,
    Disabled,
    Unsupported,
}

/// What a backend can fail with.
#[derive(Debug, Clone, PartialEq, Eq)]
pub enum PlatformError {
    Unsupported { feature: &'static str },
    PermissionDenied { permission: &'static str },
    WindowNotFound,
    MonitorNotFound,
    AlreadyRunning { service: &'static str },
    NotRunning { service: &'static str },
    Backend { message: String },
}

/// `prefix`, then `middle`, then `suffix`, as one string.
fn joined(prefix: &str, middle: &str, suffix: &str) -> (s: String)
    ensures
        s@ == prefix@ + middle@ + suffix@,
{
    let mut s = String::new();
    let a = chars_of(prefix);
    let b = chars_of(middle);
    let c = chars_of(suffix);
    push_chars(&mut s, a.as_slice());
    push_chars(&mut s, b.as_slice());
    push_chars(&mut s, c.as_slice());
    proof {
        assert(Seq::<char>::empty() + prefix@ == prefix@);
    }
    s
}

impl PlatformError {
    pub fn unsupported(feature: &'static str) -> (e: Self)
        ensures
            e == (PlatformError::Unsupported { feature }),
    {
        PlatformError::Unsupported { feature }
    }

    pub fn permission_denied(permission: &'static str) -> (e: Self)
        ensures
            e == (PlatformError::PermissionDenied { permission }),
    {
        PlatformError::PermissionDenied { permission }
    }

    pub fn backend(message: String) -> (e: Self)
        ensures
            e == (PlatformError::Backend { message }),
    {
        PlatformError::Backend { message }
    }

    /// The message that describes the error to a user.
    pub open spec fn message(self) -> Seq<char> {
        match self {
            PlatformError::Unsupported { feature } => "platform feature is unsupported: "@
                + feature@,
            PlatformError::PermissionDenied { permission } => "platform permission denied: "@
                + permission@,
            PlatformError::WindowNotFound => "window not found"@,
            PlatformError::MonitorNotFound => "monitor not found"@,
            PlatformError::AlreadyRunning { service } => service@ + " is already running"@,
            PlatformError::NotRunning { service } => service@ + " is not running"@,
            PlatformError::Backend { message } => message@,
        }
    }

    pub fn to_string(&self) -> (s: String)
        ensures
            s@ == self.message(),
    {
        proof {
            reveal_strlit("");
        }
        match self {
            PlatformError::Unsupported { feature } => joined(
                "platform feature is unsupported: ",
                feature,
                "",
            ),
            PlatformError::PermissionDenied { permission } => joined(
                "platform permission denied: ",
                permission,
                "",
            ),
            PlatformError::WindowNotFound => joined("window not found", "", ""),
            PlatformError::MonitorNotFound => joined("monitor not found", "", ""),
            PlatformError::AlreadyRunning { service } => joined(service, " is already running", ""),
            PlatformError::NotRunning { service } => joined(service, " is not running", ""),
            PlatformError::Backend { message } => message.clone(),
        }
    }
}

/// Finds, inspects and moves the windows of other programs.
pub trait WindowController {
    fn active_window(&self) -> PlatformResult<Option<WindowInfo>>;

    fn window_at(&self, point: ScreenPoint) -> PlatformResult<Option<WindowInfo>>;

    fn window_frame(&self, window: ExternalWindowId) -> PlatformResult<ScreenRect>;

    fn move_resize(&self, window: ExternalWindowId, rect: ScreenRect) -> PlatformResult<()>;

    /// Ends a drag that the system itself is running; backends that cannot do so
    /// keep this default, which reports the feature as unsupported.
    fn cancel_native_drag(&self, window: ExternalWindowId) -> (r: PlatformResult<()>)
        default_ensures
            r == Err::<(), PlatformError>(
                PlatformError::Unsupported { feature: "cancel_native_drag" },
            ),
    {
        let _ = window;
        Err(PlatformError::unsupported("cancel_native_drag"))
    }

    fn is_own_window(&self, window: ExternalWindowId) -> bool;
}

/// Watches the pointer globally and hands each event to a handler.
pub trait InputMonitor {
    fn start<H: FnMut(InputEvent) + Send + 'static>(&mut self, handler: H) -> PlatformResult<()>;

    fn stop(&mut self) -> PlatformResult<()>;
}

/// The notification-area menu of the app.
pub trait TrayMenu {
    fn set_enabled(&mut self, enabled: bool) -> PlatformResult<()>;

    fn show_settings(&mut self) -> PlatformResult<()>;

    fn quit(&mut self) -> PlatformResult<()>;
}

/// Asks the system for the permissions that moving other windows needs.
pub trait PermissionManager {
    fn status(&self, permission: PermissionKind) -> PermissionStatus;

    fn request(&self, permission: PermissionKind) -> PlatformResult<PermissionStatus>;
}

/// Starting the app when the user logs in.
pub trait StartupIntegration {
    fn state(&self) -> PlatformResult<StartupState>;

    fn set_enabled(&self, enabled: bool) -> PlatformResult<()>;
}

} // verus!
