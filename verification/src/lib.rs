//! Supervises one child process's two output streams: lines captured on
//! independent readers are merged back into chronological order by a
//! backoff-window protocol, rendered with optional timestamps and color,
//! and fanned out to the terminal and a shared log file.

pub mod color;
pub mod merge;
pub mod message;
pub mod sink;
pub mod supervisor;
pub mod timefmt;
