//! Verified core of an interactive terminal process dashboard.
//!
//! The library models the session state machine of the dashboard: the
//! projection of a process snapshot through a filter into the visible,
//! CPU-sorted table, the selection index into that projection, the modal
//! UI states and the dispatch of key and mouse events into state
//! transitions or signal requests, and the bounded CPU-history buffer
//! that feeds the chart. Everything here works on plain values; reading
//! the live process table, drawing, and delivering signals are left to
//! the thin unverified shell around the library.

pub mod history;
pub mod projection;
pub mod session;
pub mod snapshot;
pub mod text;
