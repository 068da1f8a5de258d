//! Verified core of a terminal-resident process monitor.
//!
//! The library holds the application state model and its refresh/input
//! state machine: the pipeline that turns a raw process snapshot into a
//! filtered, sorted, selection-aware list, and the mode-driven keystroke
//! interpreter that mutates that state.  Terminal I/O, rendering and the
//! OS-facing snapshot provider are outside collaborators: they hand the
//! library plain values and perform the actions it decides on.

pub mod app;
pub mod process;
pub mod selection;
pub mod text;
pub mod theme;
