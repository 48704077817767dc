use vstd::prelude::*;

verus! {

/// Everything that can go wrong while attaching to a process, reading or
/// writing its memory, or pacing work against its tick counter.
#[derive(Clone, Copy, Debug, PartialEq, Eq, Structural)]
pub enum Error {
    /// No process answers to the identifier that was handed in.
    ProcessNotFound,
    /// No loaded module matches the name that was asked for.
    ModuleNotFound,
    /// The operating system refused the transfer.
    AccessDenied,
    /// Fewer bytes arrived than were asked for.
    ShortRead,
    /// Fewer bytes were taken than were offered.
    ShortWrite,
    /// The scan reached the end of readable memory without a match.
    PatternNotFound,
    /// Bytes or code units read from the process are not well-formed text.
    InvalidText,
    /// A bounded wait used up all of its attempts.
    Timeout,
    /// The process has not advanced since the last completed step.
    NotYetTime,
    /// The step supplied by the caller reported a failure.
    StepFailed,
}

impl Error {
    /// Whether the failure ends an attach sequence for good, as opposed to one
    /// that the immediate caller may retry or skip.
    pub open spec fn is_fatal(self) -> bool {
        self == Error::ProcessNotFound || self == Error::ModuleNotFound || self
            == Error::AccessDenied
    }

    /// Whether a polling loop passes over the failure and goes on.
    pub open spec fn is_transient(self) -> bool {
        self == Error::NotYetTime || self == Error::StepFailed
    }

    pub fn fatal(&self) -> (r: bool)
        ensures
            r == self.is_fatal(),
    {
        match self {
            Error::ProcessNotFound | Error::ModuleNotFound | Error::AccessDenied => true,
            _ => false,
        }
    }

    pub fn transient(&self) -> (r: bool)
        ensures
            r == self.is_transient(),
    {
        match self {
            Error::NotYetTime | Error::StepFailed => true,
            _ => false,
        }
    }

    /// A one-line description fit for a log or an abort message.
    pub fn message(&self) -> (text: &'static str)
        ensures
            text@ == self.message_text(),
    {
        match self {
            Error::ProcessNotFound => "process not found",
            Error::ModuleNotFound => "module not found",
            Error::AccessDenied => "access to process memory denied",
            Error::ShortRead => "fewer bytes read than requested",
            Error::ShortWrite => "fewer bytes written than requested",
            Error::PatternNotFound => "pattern not found",
            Error::InvalidText => "memory does not hold well-formed text",
            Error::Timeout => "gave up waiting",
            Error::NotYetTime => "no need to update",
            Error::StepFailed => "step failed",
        }
    }

    pub open spec fn message_text(self) -> Seq<char> {
        match self {
            Error::ProcessNotFound => "process not found"@,
            Error::ModuleNotFound => "module not found"@,
            Error::AccessDenied => "access to process memory denied"@,
            Error::ShortRead => "fewer bytes read than requested"@,
            Error::ShortWrite => "fewer bytes written than requested"@,
            Error::PatternNotFound => "pattern not found"@,
            Error::InvalidText => "memory does not hold well-formed text"@,
            Error::Timeout => "gave up waiting"@,
            Error::NotYetTime => "no need to update"@,
            Error::StepFailed => "step failed"@,
        }
    }
}

} // verus!
