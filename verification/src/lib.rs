//! Core of a session-persistence tool: a daemon hosts long-lived terminal
//! sessions that clients attach to, detach from, and switch between.
//!
//! This crate holds the two subsystems with real invariants:
//! the session-restore spool (a memory-bounded FIFO buffer of terminal
//! output handed to reattaching clients) and the client-side switch
//! coordinator (a state machine sequencing detach and attach with a
//! confirmation gate). Transport, pty handling and configuration loading
//! are external collaborators and stay outside this crate.

pub mod cli;
pub mod session_restore;
pub mod switch;
pub mod text;
