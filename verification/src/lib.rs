//! Reactive core of a status-bar application.
//!
//! This crate owns the decision logic of the bar: the wake scheduler that
//! merges redraw deadlines, the interest registry that propagates data
//! changes, the tray directory that tracks remote tray items, the menu
//! client state machine, and the paint planner that decides which surfaces
//! are repainted in a tick and how the shared pixel buffer is laid out.
//!
//! All I/O (the message bus, the compositor connection, timers) lives
//! outside this crate; the functions here turn plain values describing
//! external events into state updates and plain-value commands for the
//! surrounding runtime to execute.

pub mod format;
pub mod menu;
pub mod notify;
pub mod state;
pub mod tray;
pub mod text;
pub mod wake;
