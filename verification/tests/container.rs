use phi::container::client::response_into_job_info;
use phi::container::cli::{join_words, plan_request, status_label, status_line, ContainerCommand, ContainerRequest};
use phi::container::job::{JobHandle, JobStatus};
use phi::container::protocol::{Response, Status};
use phi::container::server::{close_result, plan_reply, serve_outcome, terminal_finished, unreadable_request, OperationResult, ServerState};
use phi::container::terminal::{encode_sequence, terminal_query, Dispatcher, TerminalEvent, TerminalQuery};

fn display_bytes(events: &[TerminalEvent]) -> Vec<u8> {
    let mut bytes = Vec::new();
    for event in events {
        if let TerminalEvent::Display(chunk) = event {
            bytes.extend_from_slice(chunk);
        }
    }
    bytes
}

#[test]
fn terminal_answers_cursor_and_device_queries() {
    assert!(matches!(terminal_query(&vec![vec![6]], b"", 'n'), Some(TerminalQuery::CursorPosition { private: false })));
    assert!(matches!(terminal_query(&vec![vec![6]], b"?", 'n'), Some(TerminalQuery::CursorPosition { private: true })));
    assert!(matches!(terminal_query(&vec![], b"", 'c'), Some(TerminalQuery::PrimaryDeviceAttributes)));
    assert!(terminal_query(&vec![vec![2]], b"", 'J').is_none());
    assert_eq!(TerminalQuery::CursorPosition { private: false }.reply(4, 9), b"\x1b[5;10R".to_vec());
    assert_eq!(TerminalQuery::CursorPosition { private: true }.reply(0, 0), b"\x1b[?1;1R".to_vec());
    assert_eq!(TerminalQuery::DeviceStatus.reply(0, 0), b"\x1b[0n".to_vec());
    assert_eq!(TerminalQuery::TextAreaSize.reply(0, 0), b"\x1b[8;24;80t".to_vec());
    assert_eq!(TerminalQuery::SecondaryDeviceAttributes.reply(0, 0), b"\x1b[>0;0;0c".to_vec());
}

#[test]
fn sequences_are_written_out_again() {
    assert_eq!(encode_sequence(b'[', &vec![vec![1], vec![31]], b"", 'm'), b"\x1b[1;31m".to_vec());
    assert_eq!(encode_sequence(b'[', &vec![vec![38, 2, 255]], b"?", 'h'), b"\x1b[?38:2:255h".to_vec());
    assert_eq!(encode_sequence(b'[', &vec![], b"? ", 'q'), b"\x1b[? q".to_vec());
}

#[test]
fn dispatcher_merges_display_and_keeps_queries_apart() {
    let mut dispatcher = Dispatcher::new();
    dispatcher.print('h');
    dispatcher.print('é');
    dispatcher.execute(b'\n');
    dispatcher.csi_dispatch(&vec![vec![6]], b"", 'n');
    dispatcher.esc_dispatch(b"(", b'B');
    dispatcher.osc_dispatch(&vec![b"0".to_vec(), b"title".to_vec()], true);
    dispatcher.hook(&vec![vec![1]], b"$", 'q');
    dispatcher.put(b'm');
    dispatcher.unhook();
    let events = dispatcher.take_events();
    assert_eq!(events.len(), 3);
    assert!(matches!(&events[1], TerminalEvent::Query(TerminalQuery::CursorPosition { private: false })));
    assert_eq!(display_bytes(&events[..1]), "hé\n".as_bytes().to_vec());
    assert_eq!(display_bytes(&events[2..]), b"\x1b(B\x1b]0;title\x07\x1bP1$qm\x1b\\".to_vec());
    assert!(dispatcher.take_events().is_empty());
}

#[test]
fn replies_and_outcomes_of_served_requests() {
    let planned = plan_reply(OperationResult::Terminal {
        status: Status::Exited(0),
        waited_ms: 12,
        output: "bye".into(),
        output_truncated: false,
    });
    assert!(planned.delivers_output);
    assert!(matches!(planned.response, Response::Terminal { waited_ms: 12, .. }));
    assert!(terminal_finished(planned.terminal_status, true));
    assert!(!terminal_finished(Some(Status::Running), true));

    let failed = plan_reply(OperationResult::Failed { exit_code: None, error: "broken".into() });
    assert!(matches!(failed.response, Response::Failed { status: Status::Running, .. }));
    assert!(!failed.delivers_output);

    let outcome = serve_outcome(false, true, true, true);
    assert!(outcome.handled && outcome.should_exit && outcome.terminal_flushed);
    let unwritten = serve_outcome(true, true, true, false);
    assert!(unwritten.should_exit && !unwritten.terminal_flushed);
    let unread = unreadable_request();
    assert!(!unread.handled);

    let mut state = ServerState::new_at(1000, 0);
    assert!(!state.after_serve_at(&outcome_without_exit(), 10));
    assert!(state.drained(true));
    assert_eq!(state.activity.last_activity_ms, 10);
}

fn outcome_without_exit() -> phi::container::server::ServeOutcome {
    serve_outcome(false, true, false, true)
}

#[test]
fn container_command_requests_and_status_lines() {
    assert_eq!(join_words(&vec!["echo".into(), "hello world".into()]), "echo hello world");
    let ContainerRequest::Write { handle, data, timeout_ms } =
        plan_request(ContainerCommand::Write { handle: "abcd-efgh".into(), data: None, timeout_ms: 1000 })
    else {
        panic!("write")
    };
    assert_eq!(handle.0, "abcd-efgh");
    assert_eq!(data, "");
    assert_eq!(timeout_ms, 1000);
    assert_eq!(status_label(JobStatus::Exited(-2)), "exited:-2");
    assert_eq!(status_label(JobStatus::NoExist), "not-found");
    assert_eq!(status_line(JobStatus::Running, Some(&JobHandle("abcd-efgh".into()))), "status=running handle=abcd-efgh");
    assert_eq!(status_line(JobStatus::Exited(0), None), "status=exited:0");
}

use phi::container::platform::normalize_wait_status;

#[test]
fn wait_status_of_an_exited_process_is_its_code() {
    assert_eq!(normalize_wait_status(0), 0);
    assert_eq!(normalize_wait_status(3 << 8), 3);
    assert_eq!(normalize_wait_status(255 << 8), -1);
    assert_eq!(normalize_wait_status(200 << 8), -56);
}

#[test]
fn wait_status_of_a_killed_process_is_the_negated_signal() {
    assert_eq!(normalize_wait_status(9), -9);
    assert_eq!(normalize_wait_status(15 | 0x80), -15);
}

#[test]
fn wait_status_of_a_stopped_process_is_minus_one() {
    assert_eq!(normalize_wait_status((19 << 8) | 0x7f), -1);
}

#[test]
fn handle_from_draws_applies_unbiased_bytes_in_order() {
    let first: Vec<u8> = vec![0, 250, 1, 2, 3, 27, 240, 240, 240, 240, 240, 240, 240, 240, 240, 240];
    let second: Vec<u8> = vec![4, 5, 6, 7, 8, 9, 10, 11, 12, 13, 14, 15, 16, 17, 18, 19];
    let handle = JobHandle::from_draws(&vec![first, second]).unwrap();
    assert_eq!(handle.0, "abcd-befg");
    assert!(JobHandle::is_valid(&handle.0));
}

#[test]
fn handle_from_draws_gives_up_without_enough_letters() {
    let biased: Vec<u8> = vec![255; 16];
    assert_eq!(
        JobHandle::from_draws(&vec![biased]).err().as_deref(),
        Some("random source did not yield a job handle")
    );
    assert!(JobHandle::from_draws(&Vec::new()).is_err());
}

#[test]
fn random_handles_are_valid() {
    let handle = JobHandle::random().unwrap();
    assert!(JobHandle::is_valid(&handle.0));
}

#[test]
fn closing_a_job_reports_no_wait() {
    let planned = plan_reply(close_result(Status::Exited(0), "bye\n".into(), false));
    let info = response_into_job_info(Some(planned.response)).unwrap();
    assert_eq!(info.waited(), 0);
    assert_eq!(info.outputs(), "bye\n");
    assert!(matches!(info.status(), JobStatus::Exited(0)));
}
