//! The rules by which the plugins of the tray decide.

pub mod desktop_events_dynamic;
pub mod menus;
