//! A personal work-time tracker: a toggle state machine that accumulates
//! worked duration over a day, together with the durable, append-only,
//! line-oriented log representation it is rehydrated from.
//!
//! The library holds the verified core: parsing and rendering of `HH:MM:SS`
//! log lines, the alternating start/stop session state machine, duration
//! formatting, and rehydration of a session from a day log's bytes. The thin
//! shell around it (file handling, the blocking event loop) lives outside.
use vstd::prelude::*;

pub mod daylog;
pub mod duration;
pub mod session;
pub mod time;

verus! {

/// The error kinds of the tracker. All three are fatal to the process:
/// none can be recovered from locally.
#[derive(Clone, Copy, Debug, PartialEq, Eq, Structural)]
pub enum TimerError {
    /// Storage unreadable, unwritable, or a directory uncreatable.
    /// Produced only by the I/O shell; the verified core never does I/O.
    IoError,
    /// A stored line does not parse as `HH:MM:SS`.
    MalformedEntry,
    /// A stop event carries an earlier time than its paired start event
    /// (clock regression); the elapsed interval would be negative.
    InvalidState,
}

} // verus!
