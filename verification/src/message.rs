use vstd::prelude::*;

verus! {

/// Tag identifying which of the child's two output streams a message came from.
#[derive(Clone, Copy, PartialEq, Eq, Structural, Debug)]
pub enum Origin {
    Stderr,
    Stdout,
}

/// One captured line of child output (newline stripped) together with its
/// capture instant, in nanoseconds since the Unix epoch.
pub struct Message {
    pub timestamp: u64,
    pub line: String,
}

/// Relies on `time::UtcDateTime::now` and `time::UtcDateTime::unix_timestamp_nanos`:
/// the current wall-clock instant, as nanoseconds since the Unix epoch. The result
/// depends on the system clock, so nothing is promised of it.
#[verifier::external_body]
fn now_unix_nanos() -> i128 {
    time::UtcDateTime::now().unix_timestamp_nanos()
}

/// The current wall-clock instant clamped into `u64` nanoseconds since the epoch.
pub fn now_nanos() -> u64 {
    let now = now_unix_nanos();
    if now < 0 {
        0u64
    } else if now > u64::MAX as i128 {
        u64::MAX
    } else {
        now as u64
    }
}

impl Message {
    /// Wrap a line just read from a stream, stamping it with the moment it was
    /// fully read.
    pub fn record(line: String) -> (m: Message)
        ensures
            m.line@ == line@,
    {
        Message { timestamp: now_nanos(), line }
    }
}

} // verus!
