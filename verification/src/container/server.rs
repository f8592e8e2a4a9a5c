//! The job process's side of a request: which reply it sends, and what the
//! exchange means for the process's own life.
use vstd::prelude::*;

use crate::container::lease::ActivityExpiration;
use crate::container::protocol::{Response, Status};

verus! {

/// How long, in milliseconds, a job process waits for its first client.
pub const CLIENT_IO_GRACE_MS: u64 = 5000;

/// What serving one connection meant.
pub struct ServeOutcome {
    /// A request was read and answered.
    pub handled: bool,
    /// The process should stop.
    pub should_exit: bool,
    /// Terminal output was handed to the client.
    pub terminal_flushed: bool,
}

/// The outcome of a connection whose request could not be read.
pub fn unreadable_request() -> (outcome: ServeOutcome)
    ensures
        !outcome.handled && !outcome.should_exit && !outcome.terminal_flushed,
{
    ServeOutcome { handled: false, should_exit: false, terminal_flushed: false }
}

/// What the job did with a request.
pub enum OperationResult {
    /// Input was written.
    Written(Status),
    /// Output was read from the terminal after `waited_ms` milliseconds.
    Terminal { status: Status, waited_ms: u64, output: String, output_truncated: bool },
    /// The operation failed; `exit_code` is the job's exit code when it has one.
    Failed { exit_code: Option<i8>, error: String },
}

/// The reply to a request, and whether it hands terminal output over.
pub struct PlannedReply {
    pub response: Response,
    pub delivers_output: bool,
    /// The job's status, for a reply that carries the terminal.
    pub terminal_status: Option<Status>,
}

/// What a close request did: the terminal as it was left, with no wait.
pub fn close_result(status: Status, output: String, output_truncated: bool) -> (result: OperationResult)
    ensures
        result == (OperationResult::Terminal { status, waited_ms: 0, output, output_truncated }),
{
    OperationResult::Terminal { status, waited_ms: 0, output, output_truncated }
}

/// The reply to send for what the job did: a write is acknowledged with the
/// job's status; terminal output is handed over with its status, wait and
/// truncation; a failure reports the job as exited with its code where it has
/// one, else as running, with the error.
pub fn plan_reply(result: OperationResult) -> (planned: PlannedReply)
    ensures
        planned.delivers_output == result is Terminal,
        result matches OperationResult::Written(status) ==> planned.response == (Response::Written { status })
            && planned.terminal_status is None,
        result matches OperationResult::Terminal { status, waited_ms, output, output_truncated } ==> planned.response
            == (Response::Terminal { status, output, output_truncated, waited_ms })
            && planned.terminal_status == Some(status),
        result matches OperationResult::Failed { exit_code: Some(code), error } ==> planned.response
            == (Response::Failed { status: Status::Exited(code), error }) && planned.terminal_status is None,
        result matches OperationResult::Failed { exit_code: None, error } ==> planned.response
            == (Response::Failed { status: Status::Running, error }) && planned.terminal_status is None,
{
    match result {
        OperationResult::Written(status) => PlannedReply {
            response: Response::Written { status },
            delivers_output: false,
            terminal_status: None,
        },
        OperationResult::Terminal { status, waited_ms, output, output_truncated } => PlannedReply {
            response: Response::Terminal { status, output, output_truncated, waited_ms },
            delivers_output: true,
            terminal_status: Some(status),
        },
        OperationResult::Failed { exit_code, error } => PlannedReply {
            response: Response::Failed {
                status: match exit_code {
                    Some(code) => Status::Exited(code),
                    None => Status::Running,
                },
                error,
            },
            delivers_output: false,
            terminal_status: None,
        },
    }
}

/// Whether the job is done: its terminal was read after it exited and all
/// its output has been read.
pub fn terminal_finished(terminal_status: Option<Status>, reached_eof: bool) -> (finished: bool)
    ensures
        finished == (terminal_status matches Some(Status::Exited(_)) && reached_eof),
{
    match terminal_status {
        Some(Status::Exited(_)) => reached_eof,
        _ => false,
    }
}

pub open spec fn serve_outcome_spec(close_requested: bool, delivers_output: bool, finished: bool, written: bool) -> ServeOutcome {
    if written {
        ServeOutcome { handled: true, should_exit: close_requested || finished, terminal_flushed: delivers_output }
    } else {
        ServeOutcome { handled: true, should_exit: close_requested, terminal_flushed: false }
    }
}

/// What an answered request means: a close ends the process even when the
/// reply could not be written; a finished job ends it once the reply was
/// written; output counts as handed over only when the reply was written.
pub fn serve_outcome(close_requested: bool, delivers_output: bool, finished: bool, written: bool) -> (outcome: ServeOutcome)
    ensures
        outcome == serve_outcome_spec(close_requested, delivers_output, finished, written),
{
    if written {
        ServeOutcome { handled: true, should_exit: close_requested || finished, terminal_flushed: delivers_output }
    } else {
        ServeOutcome { handled: true, should_exit: close_requested, terminal_flushed: false }
    }
}

/// What the job process keeps between connections.
pub struct ServerState {
    pub activity: ActivityExpiration,
    pub terminal_flushed: bool,
}

impl ServerState {
    /// The state of a job process started at `now_ms` whose job expires after
    /// `expiration_ms` milliseconds without a client.
    pub fn new_at(expiration_ms: u64, now_ms: u64) -> (state: Self)
        ensures
            state.activity == (ActivityExpiration {
                expiration_ms,
                startup_grace_ms: CLIENT_IO_GRACE_MS,
                last_activity_ms: now_ms,
                interacted: false,
            }),
            !state.terminal_flushed,
    {
        ServerState { activity: ActivityExpiration::new_at(expiration_ms, CLIENT_IO_GRACE_MS, now_ms), terminal_flushed: false }
    }

    /// Takes in what serving a connection at `now_ms` meant; answers whether
    /// the process should stop.
    pub fn after_serve_at(&mut self, outcome: &ServeOutcome, now_ms: u64) -> (stop: bool)
        ensures
            stop == outcome.should_exit,
            final(self).terminal_flushed == (old(self).terminal_flushed || outcome.terminal_flushed),
            outcome.handled ==> final(self).activity == (ActivityExpiration {
                last_activity_ms: now_ms,
                interacted: true,
                ..old(self).activity
            }),
            !outcome.handled ==> final(self).activity == old(self).activity,
    {
        if outcome.handled {
            self.activity.observe_interaction_at(now_ms);
        }
        self.terminal_flushed = self.terminal_flushed || outcome.terminal_flushed;
        outcome.should_exit
    }

    /// Whether the process can stop because the job's last output was handed
    /// over and the job has no more.
    pub fn drained(&self, reached_eof: bool) -> (stop: bool)
        ensures
            stop == (self.terminal_flushed && reached_eof),
    {
        self.terminal_flushed && reached_eof
    }
}

} // verus!
