//! The logic of an idle manager for Wayland sessions.

pub mod action;
pub mod cli;
pub mod config;
pub mod daemon;
pub mod error;
pub mod events;
pub mod host;
pub mod info;
pub mod ipc;
pub mod laws;
pub mod manager;
pub mod migrate;
pub mod paths;
pub mod services;
pub mod session;
pub mod state;
pub mod text;
pub mod time;
