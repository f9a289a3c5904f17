//! Logic of a Linux tool for Logitech wireless headsets speaking HID++:
//! mute-button remapping, LED control and battery monitoring.
pub mod text;
pub mod calibration;
pub mod config;
pub mod hidpp;
pub mod nodes;
pub mod battery;
pub mod uinput;
pub mod session;
pub mod panel;
pub mod cli;
pub mod diagnostics;
pub mod exchange;
pub mod stop;
