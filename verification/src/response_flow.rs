//! How the answers to a command's requests are turned into its result:
//! which handler an answer goes to, and the steps that make one result out
//! of the connector's answers (the command module's own parsing is the
//! caller's).

use vstd::prelude::*;
use crate::display_options::UIAction;
use crate::error::{ErrorKind, LkError};
use crate::request_flow::{RequestKind, ResponseMessage};
use crate::configuration::INTERNAL;
use crate::enums::str_equals;

verus! {

/// Which handler takes the answer to a command's request.
#[derive(PartialEq, Eq, Structural, Clone, Copy, Debug)]
pub enum ResponseHandler {
    /// Make a command result out of the answers.
    CommandResponse,
    /// Open the downloaded file in the built-in editor.
    InternalEditorDownload,
    /// Open the downloaded file in an external editor.
    ExternalEditorDownload,
    /// Report on an upload of an edited file.
    UploadResponse,
}

/// Whether answers for commands with this action can be handled at all.
pub open spec fn handled_action(action: UIAction, kind: RequestKind) -> bool {
    match action {
        UIAction::TextEditor => kind == RequestKind::Download || kind == RequestKind::Upload,
        UIAction::Terminal | UIAction::FileBrowser => false,
        _ => true,
    }
}

/// The handler for an answer, given the command's action, the kind of the
/// request and the configured text editor.
pub open spec fn handler_of(action: UIAction, kind: RequestKind, text_editor: Seq<char>) -> ResponseHandler {
    if action == UIAction::TextEditor {
        if kind == RequestKind::Download {
            if text_editor == INTERNAL@ {
                ResponseHandler::InternalEditorDownload
            } else {
                ResponseHandler::ExternalEditorDownload
            }
        } else {
            ResponseHandler::UploadResponse
        }
    } else {
        ResponseHandler::CommandResponse
    }
}

/// Chooses the handler for an answer. Commands that open a terminal or a
/// file browser get no answers, and an editor command only downloads and
/// uploads.
pub fn response_handler(action: UIAction, kind: RequestKind, text_editor: &str) -> (r: ResponseHandler)
    requires
        handled_action(action, kind),
    ensures
        r == handler_of(action, kind, text_editor@),
{
    match action {
        UIAction::TextEditor => {
            if kind == RequestKind::Download {
                if str_equals(text_editor, INTERNAL) {
                    ResponseHandler::InternalEditorDownload
                } else {
                    ResponseHandler::ExternalEditorDownload
                }
            } else {
                ResponseHandler::UploadResponse
            }
        },
        _ => ResponseHandler::CommandResponse,
    }
}

/// The answers among `responses`, in order.
pub open spec fn answers_of(responses: Seq<Result<ResponseMessage, LkError>>) -> Seq<ResponseMessage>
    decreases responses.len(),
{
    if responses.len() == 0 {
        Seq::empty()
    } else {
        match responses.last() {
            Ok(m) => answers_of(responses.drop_last()).push(m),
            Err(_) => answers_of(responses.drop_last()),
        }
    }
}

/// The errors among `responses`, in order.
pub open spec fn errors_of(responses: Seq<Result<ResponseMessage, LkError>>) -> Seq<LkError>
    decreases responses.len(),
{
    if responses.len() == 0 {
        Seq::empty()
    } else {
        match responses.last() {
            Ok(_) => errors_of(responses.drop_last()),
            Err(e) => errors_of(responses.drop_last()).push(e),
        }
    }
}

/// Splits the answers from the errors, each in order.
pub fn partition_responses(responses: Vec<Result<ResponseMessage, LkError>>) -> (r: (Vec<ResponseMessage>, Vec<LkError>))
    ensures
        r.0@ == answers_of(responses@),
        r.1@ == errors_of(responses@),
{
    let ghost all = responses@;
    let mut answers: Vec<ResponseMessage> = Vec::new();
    let mut errors: Vec<LkError> = Vec::new();
    let mut rest = responses;
    let total = rest.len();
    let mut taken: usize = 0;
    assert(all.skip(0) =~= all);
    while rest.len() > 0
        invariant
            total == all.len(),
            taken + rest@.len() == all.len(),
            rest@ == all.skip(taken as int),
            answers@ == answers_of(all.take(taken as int)),
            errors@ == errors_of(all.take(taken as int)),
        decreases rest@.len(),
    {
        let ghost before = rest@;
        let item = rest.remove(0);
        proof {
            assert(item == all[taken as int]);
            assert(all.take(taken + 1).drop_last() =~= all.take(taken as int));
            assert(all.take(taken + 1).last() == item);
            assert(rest@ =~= all.skip(taken + 1));
        }
        match item {
            Ok(m) => answers.push(m),
            Err(e) => errors.push(e),
        }
        taken = taken + 1;
    }
    assert(all.take(all.len() as int) =~= all);
    (answers, errors)
}

/// Where making a command result stands.
#[derive(PartialEq, Eq, Structural, Clone, Copy, Debug)]
pub enum ResultStage {
    /// The command module is to parse all answers at once.
    ParseAll,
    /// It cannot; it is to parse the first answer alone.
    ParseFirst,
    /// Done: a result was made, or the errors say why not.
    Finished,
}

/// Making one command result out of the answers to a request.
#[derive(Debug)]
pub struct ResultMaking {
    pub answers: Vec<ResponseMessage>,
    /// Errors to report, the connector's first.
    pub errors: Vec<LkError>,
    pub stage: ResultStage,
}

/// The error that stands for no answer at all.
pub const NO_RESPONSES: &'static str = "No responses received";

impl ResultMaking {
    /// Starts from the connector's answers. Without any answer there is
    /// nothing to parse, and an error from the command says so.
    pub fn start(responses: Vec<Result<ResponseMessage, LkError>>, command_id: &str) -> (r: ResultMaking)
        ensures
            r.answers@ == answers_of(responses@),
            answers_of(responses@).len() > 0 ==> r.stage == ResultStage::ParseAll && r.errors@ == errors_of(
                responses@,
            ),
            answers_of(responses@).len() == 0 ==> r.stage == ResultStage::Finished && r.errors@.len() == errors_of(
                responses@,
            ).len() + 1 && r.errors@.drop_last() == errors_of(responses@) && r.errors@.last().source_id@ == command_id@
                && r.errors@.last().kind == ErrorKind::Other && r.errors@.last().message@ == NO_RESPONSES@,
    {
        let (answers, mut errors) = partition_responses(responses);
        if answers.len() == 0 {
            let ghost before = errors@;
            errors.push(LkError::other(NO_RESPONSES).set_source(command_id));
            assert(errors@.drop_last() =~= before);
            ResultMaking { answers, errors, stage: ResultStage::Finished }
        } else {
            ResultMaking { answers, errors, stage: ResultStage::ParseAll }
        }
    }

    /// Takes what parsing gave. A module that cannot parse all answers at
    /// once (not implemented) gets the first answer alone next; another
    /// error, attributed to the command, ends it without a result.
    pub fn take_parsed<T>(&mut self, parsed: Result<T, LkError>, command_id: &str) -> (r: Option<T>)
        requires
            old(self).stage != ResultStage::Finished,
        ensures
            final(self).answers@ == old(self).answers@,
            match parsed {
                Ok(t) => r == Some(t) && final(self).stage == ResultStage::Finished && final(self).errors@
                    == old(self).errors@,
                Err(e) => r is None && if old(self).stage == ResultStage::ParseAll && e.kind == ErrorKind::NotImplemented {
                    final(self).stage == ResultStage::ParseFirst && final(self).errors@ == old(self).errors@
                } else {
                    &&& final(self).stage == ResultStage::Finished
                    &&& final(self).errors@.len() == old(self).errors@.len() + 1
                    &&& final(self).errors@.drop_last() == old(self).errors@
                    &&& final(self).errors@.last().source_id@ == command_id@
                    &&& final(self).errors@.last().kind == e.kind
                    &&& final(self).errors@.last().message@ == e.message@
                    &&& final(self).errors@.last().parameter == e.parameter
                },
            },
    {
        match parsed {
            Ok(t) => {
                self.stage = ResultStage::Finished;
                Some(t)
            },
            Err(e) => {
                if self.stage == ResultStage::ParseAll && e.kind == ErrorKind::NotImplemented {
                    self.stage = ResultStage::ParseFirst;
                } else {
                    let ghost before = self.errors@;
                    self.errors.push(e.set_source(command_id));
                    assert(self.errors@.drop_last() =~= before);
                    self.stage = ResultStage::Finished;
                }
                None
            },
        }
    }
}

} // verus!
