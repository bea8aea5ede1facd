//! Debug inspector: component hierarchy, scene tree, panel hit-testing and
//! hotkey handling.
pub mod state;
pub mod panel;
pub mod inspector;
pub mod manager;
pub mod overlay;
pub mod history;
