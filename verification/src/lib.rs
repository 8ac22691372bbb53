//! Verified core of a tray indicator for headset batteries: what the headset
//! reports is turned into device information, the user's settings are kept in
//! a registry-style or an ini-style store, and the tray menu is kept in step
//! with what the connected headset can control.

pub mod headset_control;
pub mod lang;
pub mod menu;
pub mod text;
pub mod settings;
