//! The `container` command: what each subcommand asks of the job container,
//! and the status line it prints.
use vstd::prelude::*;

use crate::container::job::{JobHandle, JobStatus};
use crate::text::{decimal_chars, push_decimal};

verus! {

pub const DEFAULT_TIMEOUT_MS: u64 = 1000;
pub const DEFAULT_EXPIRATION_MS: u64 = 300000;

/// The arguments of the `container` command.
pub struct ContainerArgs {
    pub command: ContainerCommand,
}

pub enum ContainerCommand {
    /// Start a shell job and print its initial output.
    Exec { timeout_ms: u64, expiration_ms: u64, command: Vec<String> },
    /// Send input to a running job and print its terminal.
    Write { handle: String, data: Option<String>, timeout_ms: u64 },
    /// Close a running job.
    Close { handle: String },
    /// Run the local job process itself.
    Local { handle: String, expiration_ms: u64, command: Vec<String> },
}

/// What a subcommand asks of the job container.
#[allow(inconsistent_fields)]
pub enum ContainerRequest {
    Exec { command: String, timeout_ms: u64, expiration_ms: u64 },
    Write { handle: JobHandle, data: String, timeout_ms: u64 },
    Close { handle: JobHandle },
    Local { handle: String, expiration_ms: u64, command: String },
}

/// `words` joined by single spaces.
pub open spec fn joined_words(words: Seq<Seq<char>>) -> Seq<char>
    decreases words.len(),
{
    if words.len() == 0 {
        Seq::empty()
    } else if words.len() == 1 {
        words[0]
    } else {
        joined_words(words.drop_last()) + " "@ + words.last()
    }
}

pub open spec fn word_views(words: Seq<String>) -> Seq<Seq<char>> {
    words.map_values(|w: String| w@)
}

/// The words of a command line joined by single spaces.
pub fn join_words(words: &Vec<String>) -> (line: String)
    ensures
        line@ == joined_words(word_views(words@)),
{
    let mut line = String::new();
    let mut i: usize = 0;
    while i < words.len()
        invariant
            i <= words@.len(),
            line@ == joined_words(word_views(words@.take(i as int))),
        decreases words.len() - i,
    {
        if i > 0 {
            line.append(" ");
        }
        line.append(words[i].as_str());
        proof {
            reveal_strlit(" ");
            let next = word_views(words@.take(i + 1));
            assert(word_views(words@.take(i + 1)).drop_last() =~= word_views(words@.take(i as int)));
            if i == 0 {
                assert(word_views(words@.take(0)) =~= Seq::<Seq<char>>::empty());
                assert(next.len() == 1);
            }
        }
        i += 1;
    }
    assert(words@.take(i as int) =~= words@);
    line
}

/// What the subcommand asks of the job container.
pub fn plan_request(command: ContainerCommand) -> (request: ContainerRequest)
    ensures
        match command {
            ContainerCommand::Exec { timeout_ms, expiration_ms, command: words } => request matches ContainerRequest::Exec {
                command: line,
                timeout_ms: t,
                expiration_ms: e,
            } && line@ == joined_words(word_views(words@)) && t == timeout_ms && e == expiration_ms,
            ContainerCommand::Write { handle, data, timeout_ms } => request matches ContainerRequest::Write {
                handle: h,
                data: d,
                timeout_ms: t,
            } && h.0 == handle && d@ == (match data {
                Some(data) => data@,
                None => Seq::<char>::empty(),
            }) && t == timeout_ms,
            ContainerCommand::Close { handle } => request matches ContainerRequest::Close { handle: h } && h.0 == handle,
            ContainerCommand::Local { handle, expiration_ms, command: words } => request matches ContainerRequest::Local {
                handle: h,
                expiration_ms: e,
                command: line,
            } && h == handle && e == expiration_ms && line@ == joined_words(word_views(words@)),
        },
{
    match command {
        ContainerCommand::Exec { timeout_ms, expiration_ms, command } => {
            ContainerRequest::Exec { command: join_words(&command), timeout_ms, expiration_ms }
        },
        ContainerCommand::Write { handle, data, timeout_ms } => {
            let data = match data {
                Some(data) => data,
                None => String::new(),
            };
            ContainerRequest::Write { handle: JobHandle(handle), data, timeout_ms }
        },
        ContainerCommand::Close { handle } => ContainerRequest::Close { handle: JobHandle(handle) },
        ContainerCommand::Local { handle, expiration_ms, command } => {
            ContainerRequest::Local { handle, expiration_ms, command: join_words(&command) }
        },
    }
}

/// The decimal form of a signed exit code.
pub open spec fn signed_decimal(code: i8) -> Seq<char> {
    if code < 0 {
        "-"@ + decimal_chars((-code) as nat)
    } else {
        decimal_chars(code as nat)
    }
}

pub open spec fn status_label_spec(status: JobStatus) -> Seq<char> {
    match status {
        JobStatus::Running => "running"@,
        JobStatus::Exited(code) => "exited:"@ + signed_decimal(code),
        JobStatus::NoExist => "not-found"@,
    }
}

/// `running`, `exited:{code}` or `not-found`.
pub fn status_label(status: JobStatus) -> (label: String)
    ensures
        label@ == status_label_spec(status),
{
    match status {
        JobStatus::Running => "running".to_owned(),
        JobStatus::Exited(code) => {
            let mut label = "exited:".to_owned();
            if code < 0 {
                label.append("-");
                let magnitude: u64 = (0 - (code as i64)) as u64;
                push_decimal(&mut label, magnitude);
            } else {
                push_decimal(&mut label, code as u64);
            }
            label
        },
        JobStatus::NoExist => "not-found".to_owned(),
    }
}

/// The line printed after a job's output: `status={status}`, and the handle
/// of a job that was started.
pub fn status_line(status: JobStatus, handle: Option<&JobHandle>) -> (line: String)
    ensures
        line@ == "status="@ + status_label_spec(status) + match handle {
            Some(h) => " handle="@ + h.0@,
            None => Seq::<char>::empty(),
        },
{
    let mut line = "status=".to_owned();
    let label = status_label(status);
    line.append(label.as_str());
    match handle {
        Some(handle) => {
            line.append(" handle=");
            line.append(handle.0.as_str());
        },
        None => {},
    }
    line
}

} // verus!
