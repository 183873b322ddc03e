//! Storage engine for a personal time-tracking CLI.
//!
//! A session is one start-to-stop interval of tracked time. The engine keeps
//! two durable artifacts: a lock document whose mere existence means "a
//! session is running" (and whose content is the session's start instant),
//! and a record document holding the ordered list of completed sessions.
//! The tracker orchestrates the two with a single-active-session invariant,
//! and the reporter sums session durations over a trailing window.
//!
//! The library works on the artifact contents as plain byte documents; the
//! binary around it reads and writes the backing files.

pub mod cli;
pub mod codec;
pub mod error;
pub mod instant;
pub mod report_fmt;
pub mod reporter;
pub mod storage;
pub mod tracker;
