//! Building blocks of a tray utility for virtual desktops.
//!
//! The heart of the crate is [`dynamic_gui`]: an engine that composes
//! independent user interface plugins, rebuilds the ones that were
//! invalidated together with what depends on them, keeps the set of bound
//! event handlers in step and decides when queued actions may run.
//!
//! The other modules hold the decisions that the plugins of the tray make,
//! free of any call into the system.

pub mod auto_start;
pub mod change_elevation;
pub mod config_window;
pub mod decimal;
pub mod dynamic_gui;
pub mod nwg_ext;
pub mod quick_shortcuts;
pub mod settings;
pub mod tray;
pub mod tray_icons;
pub mod tray_plugins;
pub mod vd;
pub mod window_info;
