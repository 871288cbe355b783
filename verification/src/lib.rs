//! Brightness control for several monitors.
pub mod laws;
pub mod monitor_control;
pub mod monitor_hardware;
pub mod monitor_state;
pub mod monitor_worker;
pub mod popup;
pub mod session;
pub mod text;
pub mod theme_worker;
pub mod wide;
pub mod windows_integration;
