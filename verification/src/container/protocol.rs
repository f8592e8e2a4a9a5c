//! Messages between a job client and the process that runs the job.
use vstd::prelude::*;

use crate::container::job::JobAccess;

verus! {

#[derive(Clone, Copy, PartialEq, Eq, Structural)]
pub enum Status {
    Running,
    Exited(i8),
}

pub enum Request {
    Access(JobAccess),
    Close,
}

pub enum Response {
    Terminal { status: Status, output: String, output_truncated: bool, waited_ms: u64 },
    Written { status: Status },
    Failed { status: Status, error: String },
}

/// The kinds of I/O failure that a connection to a job can meet.
#[derive(Clone, Copy, PartialEq, Eq, Structural)]
pub enum EndpointErrorKind {
    NotFound,
    ConnectionRefused,
    BrokenPipe,
    ConnectionAborted,
    ConnectionReset,
    NotConnected,
    UnexpectedEof,
    WouldBlock,
    Interrupted,
    Other,
}

} // verus!
