//! What the services make of what they see.
//!
//! `app_inhibit`, `media`, `dbus`, `power` and `wayland` each watch one thing and say which events
//! it gives; `json` reads the compositors' replies, and `sets` keeps what belongs to a sender on
//! the bus. `laws` states what they count and tell.

pub mod app_inhibit;
pub mod dbus;
pub mod json;
pub mod laws;
pub mod media;
pub mod power;
pub mod sets;
pub mod wayland;
