use lightkeeper::display_options::UIAction;
use lightkeeper::error::{ErrorKind, LkError};
use lightkeeper::request_flow::{RequestKind, ResponseMessage};
use lightkeeper::response_flow::{
    partition_responses, response_handler, ResponseHandler, ResultMaking, ResultStage, NO_RESPONSES,
};

fn answer(text: &str) -> ResponseMessage {
    ResponseMessage { message: text.to_string(), return_code: 0, is_partial: false }
}

#[test]
fn handlers_by_action() {
    assert_eq!(response_handler(UIAction::NoAction, RequestKind::Command, "internal"), ResponseHandler::CommandResponse);
    assert_eq!(response_handler(UIAction::LogView, RequestKind::Command, "vim"), ResponseHandler::CommandResponse);
    assert_eq!(response_handler(UIAction::TextEditor, RequestKind::Download, "internal"), ResponseHandler::InternalEditorDownload);
    assert_eq!(response_handler(UIAction::TextEditor, RequestKind::Download, "kate"), ResponseHandler::ExternalEditorDownload);
    assert_eq!(response_handler(UIAction::TextEditor, RequestKind::Upload, "internal"), ResponseHandler::UploadResponse);
}

#[test]
fn partition_keeps_order() {
    let (answers, errors) = partition_responses(vec![
        Ok(answer("a")),
        Err(LkError::other("x")),
        Ok(answer("b")),
        Err(LkError::other("y")),
    ]);
    let texts: Vec<&str> = answers.iter().map(|m| m.message.as_str()).collect();
    assert_eq!(texts, vec!["a", "b"]);
    let messages: Vec<&str> = errors.iter().map(|e| e.message.as_str()).collect();
    assert_eq!(messages, vec!["x", "y"]);
}

#[test]
fn no_answers_is_an_error_of_the_command() {
    let making = ResultMaking::start(vec![Err(LkError::other("timeout"))], "uptime");
    assert_eq!(making.stage, ResultStage::Finished);
    assert_eq!(making.errors.len(), 2);
    assert_eq!(making.errors[1].message, NO_RESPONSES);
    assert_eq!(making.errors[1].source_id, "uptime");
    assert_eq!(making.errors[0].message, "timeout");
}

#[test]
fn not_implemented_falls_back_to_first_answer() {
    let mut making = ResultMaking::start(vec![Ok(answer("a")), Ok(answer("b"))], "uptime");
    assert_eq!(making.stage, ResultStage::ParseAll);
    let first: Option<u32> = making.take_parsed(Err(LkError::not_implemented()), "uptime");
    assert_eq!(first, None);
    assert_eq!(making.stage, ResultStage::ParseFirst);
    assert!(making.errors.is_empty());
    let second = making.take_parsed(Ok(7u32), "uptime");
    assert_eq!(second, Some(7));
    assert_eq!(making.stage, ResultStage::Finished);
}

#[test]
fn parse_error_is_attributed_to_command() {
    let mut making = ResultMaking::start(vec![Ok(answer("a"))], "uptime");
    let r: Option<u32> = making.take_parsed(Err(LkError::other("bad output")), "uptime");
    assert_eq!(r, None);
    assert_eq!(making.stage, ResultStage::Finished);
    assert_eq!(making.errors[0].source_id, "uptime");
    assert_eq!(making.errors[0].kind, ErrorKind::Other);

    let mut again = ResultMaking::start(vec![Ok(answer("a"))], "uptime");
    let _: Option<u32> = again.take_parsed(Err(LkError::not_implemented()), "uptime");
    let _: Option<u32> = again.take_parsed(Err(LkError::not_implemented()), "uptime");
    assert_eq!(again.stage, ResultStage::Finished);
    assert_eq!(again.errors[0].kind, ErrorKind::NotImplemented);
}
