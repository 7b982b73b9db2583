//! Orchestration core for a hotkey-activated, multi-monitor overlay surface.
//!
//! The crate models the state that matters for correctness — monitor
//! geometry, the per-monitor overlay window set, the visibility toggle, the
//! operation guard that serializes show/hide transitions, and the window
//! snapshot cache — and verifies the decision logic that drives it: hotkey
//! classification, the show/hide fallback chains, and snapshot diffing.
//! Platform calls (window creation, OS visibility queries, hotkey
//! registration) sit at the edge: callers hand their results in as plain
//! values and apply the returned commands.

pub mod rect;
pub mod text;
pub mod labels;
pub mod desktop;
pub mod manager;
pub mod controller;
pub mod dispatcher;
pub mod calendar;
pub mod clock;
pub mod platform;
pub mod overlay_manager;
pub mod focus;
pub mod tracker;
pub mod unicode;
pub mod gmail;
pub mod files;
pub mod launch;
pub mod upload;
