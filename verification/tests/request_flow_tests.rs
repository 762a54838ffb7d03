use lightkeeper::display_options::UIAction;
use lightkeeper::error::{ErrorKind, LkError};
use lightkeeper::request_flow::{
    connector_messages, follow_output_step, plan_execution, ExecutionPlan, route_request, CommandRun, FollowStep, RequestKind, ResponseMessage, Route,
    FOLLOW_SINGLE_COMMAND_ONLY,
};

fn reply(text: &str, code: i32, partial: bool) -> ResponseMessage {
    ResponseMessage { message: text.to_string(), return_code: code, is_partial: partial }
}

#[test]
fn routes_by_kind_and_connector() {
    assert_eq!(route_request(RequestKind::Exit, true, true, 0), Route::Stop);
    assert_eq!(route_request(RequestKind::Command, false, false, 2), Route::ReplyEmpty);
    assert_eq!(route_request(RequestKind::Command, true, false, 2), Route::Drop);
    assert_eq!(route_request(RequestKind::Command, true, true, 2), Route::RunCommands);
    assert_eq!(route_request(RequestKind::MonitorCommand, true, true, 1), Route::RunCommands);
    assert_eq!(route_request(RequestKind::KeyVerification, true, true, 0), Route::VerifyKey);
    assert_eq!(route_request(RequestKind::CommandFollowOutput, true, true, 1), Route::FollowOutput);
    assert_eq!(route_request(RequestKind::CommandFollowOutput, true, true, 2), Route::RejectFollowOutput);
    assert_eq!(route_request(RequestKind::Download, true, true, 0), Route::Download);
    assert_eq!(route_request(RequestKind::Upload, true, true, 0), Route::Upload);
    assert_eq!(FOLLOW_SINGLE_COMMAND_ONLY, "Follow output is only supported for a single command");
}

#[test]
fn command_run_sends_each_message_in_turn() {
    let mut run = CommandRun::new(vec![String::from("uptime"), String::from("df")]);
    assert_eq!(run.next_message(), Some(String::from("uptime")));
    run.record_reply(Ok(reply("up", 0, false)), "ssh");
    assert_eq!(run.next_message(), Some(String::from("df")));
    run.record_reply(Ok(reply("disk", 1, false)), "ssh");
    assert_eq!(run.next_message(), None);
    assert_eq!(run.results.len(), 2);
    assert!(!run.stopped);
}

#[test]
fn command_run_records_empty_answer_for_empty_message() {
    let mut run = CommandRun::new(vec![String::new()]);
    assert_eq!(run.next_message(), None);
    assert_eq!(run.results.len(), 1);
    match &run.results[0] {
        Ok(m) => assert!(m.message.is_empty() && m.return_code == 0 && !m.is_partial),
        Err(_) => panic!("empty message must give an empty answer"),
    }
}

#[test]
fn command_run_passes_over_empty_messages() {
    let mut run = CommandRun::new(vec![String::new(), String::from("ls"), String::new(), String::new()]);
    assert_eq!(run.next_message(), Some(String::from("ls")));
    assert_eq!(run.results.len(), 1);
    run.record_reply(Ok(reply("files", 0, false)), "ssh");
    assert_eq!(run.next_message(), None);
    assert_eq!(run.results.len(), 4);
    match &run.results[1] {
        Ok(m) => assert_eq!(m.message, "files"),
        Err(_) => panic!("reply expected"),
    }
}

#[test]
fn command_run_stops_at_first_error() {
    let mut run = CommandRun::new(vec![String::from("a"), String::from("b")]);
    assert_eq!(run.next_message(), Some(String::from("a")));
    run.record_reply(Err(LkError::other("broken pipe")), "ssh");
    assert!(run.stopped);
    assert_eq!(run.next_message(), None);
    match &run.results[0] {
        Err(e) => {
            assert_eq!(e.source_id, "ssh");
            assert_eq!(e.message, "broken pipe");
            assert_eq!(e.kind, ErrorKind::Other);
        },
        Ok(_) => panic!("expected an error"),
    }
}

#[test]
fn follow_output_gathers_all_output() {
    let mut collected = String::new();
    match follow_output_step(&mut collected, Ok(reply("line1\n", 0, true))) {
        FollowStep::Forward(m) => assert_eq!(m.message, "line1\n"),
        _ => panic!("expected forward"),
    }
    match follow_output_step(&mut collected, Ok(reply("line2\n", 0, true))) {
        FollowStep::Forward(m) => assert_eq!(m.message, "line1\nline2\n"),
        _ => panic!("expected forward"),
    }
    match follow_output_step(&mut collected, Ok(reply("done", 3, false))) {
        FollowStep::Finish(Ok(m)) => {
            assert_eq!(m.message, "line1\nline2\ndone");
            assert_eq!(m.return_code, 3);
        },
        _ => panic!("expected finish"),
    }
}

#[test]
fn follow_output_error_finishes() {
    let mut collected = String::from("x");
    match follow_output_step(&mut collected, Err(LkError::other("lost"))) {
        FollowStep::Finish(Err(e)) => assert_eq!(e.message, "lost"),
        _ => panic!("expected error"),
    }
    assert_eq!(collected, "x");
}

#[test]
fn connector_messages_combine_both_methods() {
    let r = connector_messages(Ok(vec![String::from("a"), String::new()]), Ok(String::from("b")), "cmd");
    assert_eq!(r.unwrap(), vec!["a", "b"]);
    let r = connector_messages(Err(LkError::not_implemented()), Ok(String::from("b")), "cmd");
    assert_eq!(r.unwrap(), vec!["b"]);
    let r = connector_messages(Ok(vec![String::from("a")]), Err(LkError::not_implemented()), "cmd");
    assert_eq!(r.unwrap(), vec!["a"]);
    let r = connector_messages(Err(LkError::other("bad")), Ok(String::from("b")), "cmd");
    let e = r.unwrap_err();
    assert_eq!(e.message, "bad");
    assert_eq!(e.source_id, "cmd");
    let r = connector_messages(Ok(vec![String::from("a")]), Err(LkError::other("worse")), "cmd");
    assert_eq!(r.unwrap_err().message, "worse");
}

#[test]
fn execution_takes_new_invocation_ids() {
    let mut last = 41u64;
    match plan_execution(&mut last, Ok(vec![String::from("ls")]), UIAction::NoAction) {
        ExecutionPlan::Send { invocation_id, kind, messages } => {
            assert_eq!(invocation_id, 42);
            assert_eq!(kind, RequestKind::Command);
            assert_eq!(messages, vec!["ls"]);
        },
        _ => panic!("expected send"),
    }
    match plan_execution(&mut last, Ok(vec![String::from("tail -f log")]), UIAction::FollowOutput) {
        ExecutionPlan::Send { invocation_id, kind, .. } => {
            assert_eq!(invocation_id, 43);
            assert_eq!(kind, RequestKind::CommandFollowOutput);
        },
        _ => panic!("expected send"),
    }
    match plan_execution(&mut last, Err(LkError::other("no")), UIAction::NoAction) {
        ExecutionPlan::Failed(e) => assert_eq!(e.message, "no"),
        _ => panic!("expected failure"),
    }
    assert_eq!(last, 43);
}
