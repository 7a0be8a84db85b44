//! Grid snapping geometry, selection tracking, settings and overlay logic
//! for a tray utility that snaps dragged windows onto monitor grid cells.

pub mod geometry;
pub mod grid;
pub mod selection;
pub mod text;
pub mod color;
pub mod settings;
pub mod settings_file;
pub mod json;
pub mod overlay;
pub mod winmsg;
pub mod app_state;
pub mod wide;
pub mod platform;
pub mod settings_form;
pub mod desktop;
