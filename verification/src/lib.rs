//! A transient floating panel: a small window that shows the output of
//! commands, stays hidden by default, and comes into view for a while
//! whenever something asks for it.
//!
//! This library holds the panel's rules, each with its contract: where the
//! items go on the grid, when the window is shown and hidden, what the
//! control channel's lines mean, and how the configuration is read. Windows,
//! processes, threads and clocks are the caller's part.

pub mod anchor;
pub mod command;
pub mod config;
pub mod dock;
pub mod draw;
pub mod error;
pub mod grid;
pub mod ipc;
pub mod item;
pub mod scheduled_command;
pub mod text;
pub mod util;
pub mod visibility;
pub mod window;
pub mod yaml;

pub use self::anchor::Anchor;
pub use self::dock::dock_window;
