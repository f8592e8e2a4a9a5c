//! The client side of persistent jobs: what each reply means.
use vstd::prelude::*;

use crate::container::job::{JobAccess, JobAccessResult, JobHandle, JobInfo, JobStatus};
use crate::container::protocol::{EndpointErrorKind, Response, Status};

verus! {

pub open spec fn spec_job_status(status: Status) -> JobStatus {
    match status {
        Status::Running => JobStatus::Running,
        Status::Exited(code) => JobStatus::Exited(code),
    }
}

pub fn job_status(status: Status) -> (job: JobStatus)
    ensures
        job == spec_job_status(status),
        status is Running ==> job is Running,
        status matches Status::Exited(code) ==> job == JobStatus::Exited(code),
{
    match status {
        Status::Running => JobStatus::Running,
        Status::Exited(code) => JobStatus::Exited(code),
    }
}

/// A job the server reports as running is running, and one it reports as
/// exited keeps the exit code the server gave, whatever that code is; no
/// reply status reads as a job that does not exist.
pub proof fn reply_status_keeps_exit_code(status: Status)
    ensures
        spec_job_status(status) is Running <==> status is Running,
        forall|code: i8| #[trigger] spec_job_status(Status::Exited(code)) == JobStatus::Exited(code),
        !(spec_job_status(status) is NoExist),
{
}

/// A reply to a request that wants the terminal. No reply means that the job is gone.
pub fn response_into_job_info(response: Option<Response>) -> (info: Result<JobInfo, String>)
    ensures
        response is None ==> (info matches Ok(i) && i.status == JobStatus::NoExist && i.output@.len() == 0
            && !i.truncated && i.waited_ms == 0),
        response matches Some(Response::Terminal { status, output, output_truncated, waited_ms }) ==> info
            == Ok::<JobInfo, String>(JobInfo { status: spec_job_status(status), output, truncated: output_truncated, waited_ms }),
        response matches Some(Response::Failed { error, .. }) ==> info == Err::<JobInfo, String>(error),
        response matches Some(Response::Written { .. }) ==> (info matches Err(message)
            && message@ == "job protocol returned write acknowledgment for terminal request"@),
{
    match response {
        None => Ok(JobInfo::new(JobStatus::NoExist, String::new(), false, 0)),
        Some(Response::Terminal { status, output, output_truncated, waited_ms }) => Ok(
            JobInfo::new(job_status(status), output, output_truncated, waited_ms),
        ),
        Some(Response::Failed { error, .. }) => Err(error),
        Some(Response::Written { .. }) => Err(
            "job protocol returned write acknowledgment for terminal request".to_owned(),
        ),
    }
}

/// A reply to a write request. No reply means that the job is gone.
pub fn response_into_status(response: Option<Response>) -> (status: Result<JobStatus, String>)
    ensures
        response is None ==> status == Ok::<JobStatus, String>(JobStatus::NoExist),
        response matches Some(Response::Written { status: s }) ==> status == Ok::<JobStatus, String>(spec_job_status(s)),
        response matches Some(Response::Failed { error, .. }) ==> status == Err::<JobStatus, String>(error),
        response matches Some(Response::Terminal { .. }) ==> (status matches Err(message)
            && message@ == "job protocol returned terminal snapshot for write request"@),
{
    match response {
        None => Ok(JobStatus::NoExist),
        Some(Response::Written { status }) => Ok(job_status(status)),
        Some(Response::Failed { error, .. }) => Err(error),
        Some(Response::Terminal { .. }) => Err("job protocol returned terminal snapshot for write request".to_owned()),
    }
}

/// The result of an access: an interaction wants the terminal, a write only the status.
pub fn access_result(interacts: bool, response: Option<Response>) -> (result: Result<JobAccessResult, String>)
    ensures
        interacts ==> (match result {
            Ok(JobAccessResult::Interacted(_)) => true,
            Err(_) => true,
            _ => false,
        }),
        !interacts ==> (match result {
            Ok(JobAccessResult::Written(_)) => true,
            Err(_) => true,
            _ => false,
        }),
        !interacts ==> (response is None ==> result matches Ok(JobAccessResult::Written(JobStatus::NoExist))),
        interacts ==> (response is None ==> (result matches Ok(JobAccessResult::Interacted(i)) && i.status == JobStatus::NoExist)),
        response matches Some(Response::Failed { error, .. }) ==> result == Err::<JobAccessResult, String>(error),
{
    if interacts {
        match response_into_job_info(response) {
            Ok(info) => Ok(JobAccessResult::Interacted(info)),
            Err(error) => Err(error),
        }
    } else {
        match response_into_status(response) {
            Ok(status) => Ok(JobAccessResult::Written(status)),
            Err(error) => Err(error),
        }
    }
}

pub fn is_interaction(access: &JobAccess) -> (interacts: bool)
    ensures
        interacts == (*access is Interact),
{
    match access {
        JobAccess::Interact { .. } => true,
        JobAccess::Write { .. } => false,
    }
}

/// The handle stays with the caller only while the job runs.
pub fn live_handle(handle: JobHandle, info: &JobInfo) -> (live: Option<JobHandle>)
    ensures
        live is Some <==> info.status == JobStatus::Running,
        live matches Some(h) ==> h == handle,
{
    match info.status {
        JobStatus::Running => Some(handle),
        _ => None,
    }
}

/// The first reply of a new job must be an interaction.
pub fn exec_result(handle: JobHandle, result: JobAccessResult) -> (outcome: Result<(Option<JobHandle>, JobInfo), String>)
    ensures
        result matches JobAccessResult::Interacted(info) ==> (outcome matches Ok((live, i)) && i == info
            && (live is Some <==> info.status == JobStatus::Running)),
        result is Written ==> (outcome matches Err(message)
            && message@ == "job access returned a write acknowledgment for interact request"@),
{
    match result {
        JobAccessResult::Interacted(info) => {
            let live = live_handle(handle, &info);
            Ok((live, info))
        },
        JobAccessResult::Written(_) => Err("job access returned a write acknowledgment for interact request".to_owned()),
    }
}

pub open spec fn spec_missing_endpoint(kind: EndpointErrorKind) -> bool {
    kind == EndpointErrorKind::NotFound || kind == EndpointErrorKind::ConnectionRefused
}

pub open spec fn spec_disconnected_endpoint(kind: EndpointErrorKind) -> bool {
    kind == EndpointErrorKind::BrokenPipe || kind == EndpointErrorKind::ConnectionAborted
        || kind == EndpointErrorKind::ConnectionReset || kind == EndpointErrorKind::NotConnected
        || kind == EndpointErrorKind::UnexpectedEof
}

/// The job's endpoint does not exist (any more).
pub fn is_missing_endpoint(kind: EndpointErrorKind) -> (missing: bool)
    ensures
        missing == spec_missing_endpoint(kind),
{
    kind == EndpointErrorKind::NotFound || kind == EndpointErrorKind::ConnectionRefused
}

/// The job's endpoint went away during the exchange.
pub fn is_disconnected_endpoint(kind: EndpointErrorKind) -> (disconnected: bool)
    ensures
        disconnected == spec_disconnected_endpoint(kind),
{
    kind == EndpointErrorKind::BrokenPipe || kind == EndpointErrorKind::ConnectionAborted
        || kind == EndpointErrorKind::ConnectionReset || kind == EndpointErrorKind::NotConnected
        || kind == EndpointErrorKind::UnexpectedEof
}

/// Milliseconds of a duration, capped at `u64::MAX`.
pub fn duration_millis(millis: u128) -> (capped: u64)
    ensures
        capped as int == vstd::math::min(millis as int, u64::MAX as int),
{
    if millis > u64::MAX as u128 {
        u64::MAX
    } else {
        millis as u64
    }
}

} // verus!
