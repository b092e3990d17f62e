//! What went wrong during a cycle, and how loudly to report it.
use vstd::prelude::*;

verus! {

/// The kinds of failure a cycle meets.
#[derive(Clone, Copy, Debug, PartialEq, Eq, Structural)]
pub enum ErrorKind {
    /// There was nothing to evaluate this cycle.
    NothingToDo,
    /// A submission changed state on chain while it was being evaluated.
    StateChanged,
    /// The ground-truth source has no parcel for the block (yet).
    NotAvailable,
    /// A remote service could not be reached or answered with a failure.
    Transport,
    /// A remote answer could not be decoded.
    Decode,
}

/// How a failure is logged.
#[derive(Clone, Copy, Debug, PartialEq, Eq, Structural)]
pub enum Severity {
    /// Low, non-alerting: a normal outcome of the domain.
    Trace,
    /// High, alerting: an infrastructure failure.
    Error,
}

/// Failures that are a normal outcome of the domain rather than a fault.
pub open spec fn is_business(kind: ErrorKind) -> bool {
    kind == ErrorKind::NothingToDo || kind == ErrorKind::StateChanged
}

/// A failure met during a cycle: its kind and a description for the log.
#[derive(Clone, Debug)]
pub struct GuardError {
    pub kind: ErrorKind,
    pub message: String,
}

impl ErrorKind {
    /// Business failures are traced; every other failure is an error.
    pub fn severity(self) -> (r: Severity)
        ensures
            r == (if is_business(self) {
                Severity::Trace
            } else {
                Severity::Error
            }),
    {
        match self {
            ErrorKind::NothingToDo | ErrorKind::StateChanged => Severity::Trace,
            _ => Severity::Error,
        }
    }
}

impl GuardError {
    pub fn new(kind: ErrorKind, message: String) -> (r: GuardError)
        ensures
            r.kind == kind,
            r.message@ == message@,
    {
        GuardError { kind, message }
    }

    /// How loudly this failure is logged.
    pub fn severity(&self) -> (r: Severity)
        ensures
            r == (if is_business(self.kind) {
                Severity::Trace
            } else {
                Severity::Error
            }),
    {
        self.kind.severity()
    }
}

} // verus!
