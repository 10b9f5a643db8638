//! The logging interface through which the bootloader reports progress.
use vstd::prelude::*;

verus! {

/// What a logger is handed to write out.
#[derive(Clone, Copy, PartialEq, Eq, Debug)]
pub enum Message<'m> {
    /// A line of text; the line terminator is added when it is written out.
    Line(&'m str),
    /// The two words of a partition header, as they are handed to the application.
    Header { stack_pointer: u32, entry: u32 },
}

/// General logging interface.
///
/// Logging is best effort: an implementation does not block, allocate or
/// panic, and nothing it does can stop a boot attempt.
pub trait Logger {
    /// Log a message. By default the message is discarded.
    fn log(&self, message: Message<'_>) {
    }

    /// Log a string message as one line.
    fn log_message(&self, message: &str) {
        self.log(Message::Line(message));
    }
}

/// A no-op silent logger, used by default.
pub struct NoOpLogger {}

impl NoOpLogger {
    pub fn new() -> (r: NoOpLogger)
        ensures
            r == (NoOpLogger {}),
    {
        NoOpLogger {}
    }
}

impl Logger for NoOpLogger {
}

} // verus!
