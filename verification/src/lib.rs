//! A tiling window manager's core logic: configuration parsing, workspaces, containers,
//! layouts, focus handling and status bar state. Everything that talks to the X server,
//! draws with cairo or reads files lives outside this library.

pub mod config;
pub mod utils;
pub mod wm;
pub mod error;
pub mod text;
pub mod parsers;
pub mod numbers;
pub mod laws;
