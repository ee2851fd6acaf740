//! Core of a tiling window manager: geometry, the window world model, the
//! layout engine (with a binary-space-partition tree), the snap-zone arbiter
//! for user drags, and the reconciliation engine that classifies window
//! movement and drives the host's window control.
//!
//! All coordinates are integer pixels in a single top-left-origin space.
//! The host bindings, configuration file handling and socket transport live
//! outside this crate; this crate holds the decision logic, verified.

pub mod bsp;
pub mod config;
pub mod control;
pub mod focus;
pub mod geometry;
pub mod hotkeys;
pub mod ipc;
pub mod layout;
pub mod model;
pub mod snap;
pub mod source;
pub mod text;
pub mod window_manager;

pub use geometry::Rect;
pub use model::{Window, WindowId};
