//! How requests to connectors are carried out: where each request goes,
//! how the commands of one request are run in turn, and how the output of
//! a followed command is gathered. Sending to a connector and waiting for
//! its answer are the caller's; these functions decide what comes next.

use vstd::prelude::*;
use crate::error::LkError;
use crate::text::append_text;

verus! {

/// What a request asks of a connector.
#[derive(PartialEq, Eq, Structural, Clone, Copy, Debug)]
pub enum RequestKind {
    MonitorCommand,
    Command,
    CommandFollowOutput,
    Download,
    Upload,
    KeyVerification,
    /// Ends request processing.
    Exit,
}

/// Where a request goes.
#[derive(PartialEq, Eq, Structural, Clone, Copy, Debug)]
pub enum Route {
    /// Stop processing requests.
    Stop,
    /// Answer at once with an empty response: the request needs no connector.
    ReplyEmpty,
    /// Drop the request: no connector is available for it.
    Drop,
    /// Verify the host key; answer only if that fails.
    VerifyKey,
    /// Run the commands in turn.
    RunCommands,
    /// Follow the output of the one command.
    FollowOutput,
    /// Answer with an error: output can be followed for one command only.
    RejectFollowOutput,
    Download,
    Upload,
}

/// The message of the error that answers a followed request with other
/// than one command.
pub const FOLLOW_SINGLE_COMMAND_ONLY: &'static str = "Follow output is only supported for a single command";

/// Where a request goes, given its kind, whether it names a connector,
/// whether a connector for it could be had (a new one for a stateless
/// connector, the host's open one for a stateful one), and how many
/// commands it holds.
pub open spec fn route_of(kind: RequestKind, names_connector: bool, connector_ready: bool, command_count: nat) -> Route {
    if kind == RequestKind::Exit {
        Route::Stop
    } else if !names_connector {
        Route::ReplyEmpty
    } else if !connector_ready {
        Route::Drop
    } else {
        match kind {
            RequestKind::KeyVerification => Route::VerifyKey,
            RequestKind::MonitorCommand => Route::RunCommands,
            RequestKind::Command => Route::RunCommands,
            RequestKind::CommandFollowOutput => if command_count == 1 {
                Route::FollowOutput
            } else {
                Route::RejectFollowOutput
            },
            RequestKind::Download => Route::Download,
            RequestKind::Upload => Route::Upload,
            RequestKind::Exit => Route::Stop,
        }
    }
}

/// Decides where a request goes.
pub fn route_request(kind: RequestKind, names_connector: bool, connector_ready: bool, command_count: usize) -> (r: Route)
    ensures
        r == route_of(kind, names_connector, connector_ready, command_count as nat),
{
    if kind == RequestKind::Exit {
        return Route::Stop;
    }
    if !names_connector {
        return Route::ReplyEmpty;
    }
    if !connector_ready {
        return Route::Drop;
    }
    match kind {
        RequestKind::KeyVerification => Route::VerifyKey,
        RequestKind::MonitorCommand => Route::RunCommands,
        RequestKind::Command => Route::RunCommands,
        RequestKind::CommandFollowOutput => if command_count == 1 {
            Route::FollowOutput
        } else {
            Route::RejectFollowOutput
        },
        RequestKind::Download => Route::Download,
        RequestKind::Upload => Route::Upload,
        RequestKind::Exit => Route::Stop,
    }
}

/// A connector's answer to one message.
#[derive(Debug)]
pub struct ResponseMessage {
    pub message: String,
    pub return_code: i32,
    /// More output follows.
    pub is_partial: bool,
}

impl ResponseMessage {
    /// The answer to a message that is not sent anywhere.
    pub fn empty() -> (r: ResponseMessage)
        ensures
            r.message@ == Seq::<char>::empty(),
            r.return_code == 0,
            !r.is_partial,
    {
        ResponseMessage { message: String::new(), return_code: 0, is_partial: false }
    }
}

/// Whether `r` is the answer to a message that is not sent anywhere.
pub open spec fn is_empty_response(r: Result<ResponseMessage, LkError>) -> bool {
    r matches Ok(m) && m.message@.len() == 0 && m.return_code == 0 && !m.is_partial
}

/// Position of the first message at or after `i` that is not empty (the
/// number of messages when there is none).
pub open spec fn first_to_send(messages: Seq<String>, i: int) -> int
    decreases messages.len() - i,
{
    if i >= messages.len() {
        messages.len() as int
    } else if messages[i]@.len() > 0 {
        i
    } else {
        first_to_send(messages, i + 1)
    }
}

/// The first message to send lies at or after `i`, and every message in
/// between is empty.
pub proof fn lemma_first_to_send_bounds(messages: Seq<String>, i: int)
    requires
        0 <= i,
    ensures
        first_to_send(messages, i) >= i || i > messages.len(),
        first_to_send(messages, i) <= messages.len() || i > messages.len(),
        forall|k: int| i <= k < first_to_send(messages, i) && k < messages.len() ==> (#[trigger] messages[k])@.len() == 0,
        first_to_send(messages, i) < messages.len() ==> messages[first_to_send(messages, i)]@.len() > 0,
    decreases messages.len() - i,
{
    if i < messages.len() && messages[i]@.len() == 0 {
        lemma_first_to_send_bounds(messages, i + 1);
    }
}

/// The commands of one request, run in turn: the results so far, and
/// whether an error ended the run.
#[derive(Debug)]
pub struct CommandRun {
    pub messages: Vec<String>,
    /// Position of the next message to send.
    pub next: usize,
    pub results: Vec<Result<ResponseMessage, LkError>>,
    /// An error ended the run.
    pub stopped: bool,
}

impl CommandRun {
    /// A run of `messages` that has sent nothing yet.
    pub fn new(messages: Vec<String>) -> (r: CommandRun)
        ensures
            r.messages@ == messages@,
            r.next == 0,
            r.results@.len() == 0,
            !r.stopped,
    {
        CommandRun { messages, next: 0, results: Vec::new(), stopped: false }
    }

    /// Whether the run is over: every message sent, or an error ended it.
    pub open spec fn is_done(self) -> bool {
        self.stopped || self.next >= self.messages@.len()
    }

    /// The next message to send, `None` once the run is over. Empty
    /// messages are not sent: each is passed over with an empty answer
    /// recorded for it.
    pub fn next_message(&mut self) -> (r: Option<String>)
        ensures
            final(self).messages@ == old(self).messages@,
            final(self).stopped == old(self).stopped,
            old(self).is_done() ==> r is None && final(self).results@ == old(self).results@
                && final(self).next == old(self).next,
            !old(self).is_done() ==> ({
                let j = first_to_send(old(self).messages@, old(self).next as int);
                &&& final(self).next == j
                &&& final(self).results@.len() == old(self).results@.len() + (j - old(self).next)
                &&& final(self).results@.take(old(self).results@.len() as int) == old(self).results@
                &&& forall|k: int| old(self).results@.len() <= k < final(self).results@.len()
                    ==> is_empty_response(#[trigger] final(self).results@[k])
                &&& j < old(self).messages@.len() ==> (r matches Some(s) && s@ == old(self).messages@[j]@)
                &&& j >= old(self).messages@.len() ==> r is None
            }),
    {
        if self.stopped || self.next >= self.messages.len() {
            return None;
        }
        let ghost start = self.next;
        let ghost before = self.results@;
        let ghost target = first_to_send(self.messages@, self.next as int);
        proof {
            lemma_first_to_send_bounds(self.messages@, self.next as int);
        }
        while self.next < self.messages.len() && self.messages[self.next].as_str().is_empty()
            invariant
                self.messages@ == old(self).messages@,
                self.stopped == old(self).stopped,
                !self.stopped,
                start == old(self).next,
                before == old(self).results@,
                target == first_to_send(self.messages@, start as int),
                first_to_send(self.messages@, self.next as int) == target,
                start <= self.next,
                self.next <= target,
                target <= self.messages@.len(),
                self.results@.len() == before.len() + (self.next - start),
                self.results@.take(before.len() as int) == before,
                forall|k: int| before.len() <= k < self.results@.len() ==> is_empty_response(#[trigger] self.results@[k]),
            decreases self.messages@.len() - self.next,
        {
            let ghost prev = self.results@;
            proof {
                lemma_first_to_send_bounds(self.messages@, self.next + 1);
            }
            self.results.push(Ok(ResponseMessage::empty()));
            proof {
                assert(self.results@.take(before.len() as int) =~= prev.take(before.len() as int));
            }
            self.next = self.next + 1;
        }
        proof {
            lemma_first_to_send_bounds(self.messages@, start as int);
        }
        if self.next < self.messages.len() {
            Some(self.messages[self.next].clone())
        } else {
            None
        }
    }

    /// Records the connector's answer to the message just sent. An error,
    /// attributed to the connector, ends the run.
    pub fn record_reply(&mut self, reply: Result<ResponseMessage, LkError>, connector_id: &str)
        requires
            !old(self).is_done(),
        ensures
            final(self).messages@ == old(self).messages@,
            final(self).next == old(self).next + 1,
            final(self).results@.len() == old(self).results@.len() + 1,
            final(self).results@.drop_last() == old(self).results@,
            match reply {
                Ok(m) => !final(self).stopped && final(self).results@.last() == Ok::<ResponseMessage, LkError>(m),
                Err(e) => final(self).stopped && (final(self).results@.last() matches Err(f) && f.source_id@
                    == connector_id@ && f.kind == e.kind && f.message@ == e.message@ && f.parameter == e.parameter),
            },
    {
        let ghost before = self.results@;
        assert(self.next < self.messages.len());
        match reply {
            Ok(m) => {
                self.results.push(Ok(m));
            },
            Err(e) => {
                self.results.push(Err(e.set_source(connector_id)));
                self.stopped = true;
            },
        }
        self.next = self.next + 1;
        assert(self.results@.drop_last() =~= before);
    }
}

/// What to do with one answer while following a command's output.
#[derive(Debug)]
pub enum FollowStep {
    /// Pass on the output so far; more follows.
    Forward(ResponseMessage),
    /// The command is done: this is the final answer.
    Finish(Result<ResponseMessage, LkError>),
}

/// Takes one answer while following a command's output: the output is
/// gathered in `collected`, and every answer carries all output so far.
pub fn follow_output_step(collected: &mut String, reply: Result<ResponseMessage, LkError>) -> (r: FollowStep)
    ensures
        match reply {
            Ok(m) => {
                &&& final(collected)@ == old(collected)@ + m.message@
                &&& match r {
                    FollowStep::Forward(f) => m.is_partial && f.message@ == final(collected)@ && f.return_code
                        == m.return_code && f.is_partial,
                    FollowStep::Finish(Ok(f)) => !m.is_partial && f.message@ == final(collected)@ && f.return_code
                        == m.return_code && !f.is_partial,
                    FollowStep::Finish(Err(_)) => false,
                }
            },
            Err(e) => final(collected)@ == old(collected)@ && r == FollowStep::Finish(Err(e)),
        },
{
    match reply {
        Ok(m) => {
            append_text(collected, m.message.as_str());
            let gathered = ResponseMessage { message: collected.clone(), return_code: m.return_code, is_partial: m.is_partial };
            if m.is_partial {
                FollowStep::Forward(gathered)
            } else {
                FollowStep::Finish(Ok(gathered))
            }
        },
        Err(e) => FollowStep::Finish(Err(e)),
    }
}

/// The non-empty texts of `messages`, in order.
pub open spec fn non_empty_texts(messages: Seq<Seq<char>>) -> Seq<Seq<char>>
    decreases messages.len(),
{
    if messages.len() == 0 {
        Seq::empty()
    } else if messages.last().len() == 0 {
        non_empty_texts(messages.drop_last())
    } else {
        non_empty_texts(messages.drop_last()).push(messages.last())
    }
}

/// The messages a command's module produced, as texts: those of the
/// several-message method (if it has one), then that of the one-message
/// method (if it has one).
pub open spec fn produced_messages(many: Result<Vec<String>, LkError>, single: Result<String, LkError>) -> Seq<Seq<char>> {
    let first = match many {
        Ok(v) => crate::keyed::views_of(v@),
        Err(_) => Seq::empty(),
    };
    match single {
        Ok(s) => first.push(s@),
        Err(_) => first,
    }
}

/// An error of a message method that stops the command: any but "not
/// implemented".
pub open spec fn blocking_error<T>(r: Result<T, LkError>) -> Option<LkError> {
    match r {
        Err(e) => if e.kind != crate::error::ErrorKind::NotImplemented {
            Some(e)
        } else {
            None
        },
        Ok(_) => None,
    }
}

/// `r` is the error `e`, attributed to `source`.
pub open spec fn is_attributed_error<T>(r: Result<T, LkError>, e: LkError, source: Seq<char>) -> bool {
    r matches Err(f) && f.source_id@ == source && f.kind == e.kind && f.message@ == e.message@ && f.parameter
        == e.parameter
}

/// The messages a command sends to its connector, given what its module's
/// two message methods returned: a method that is not implemented adds
/// nothing, another error (attributed to the command, the several-message
/// method's first) is the answer, and empty messages are left out.
pub fn connector_messages(many: Result<Vec<String>, LkError>, single: Result<String, LkError>, command_id: &str) -> (r: Result<
    Vec<String>,
    LkError,
>)
    ensures
        match (blocking_error(many), blocking_error(single)) {
            (Some(e), _) => is_attributed_error(r, e, command_id@),
            (None, Some(e)) => is_attributed_error(r, e, command_id@),
            (None, None) => r matches Ok(v) && crate::keyed::views_of(v@) == non_empty_texts(produced_messages(many, single)),
        },
{
    let ghost produced = produced_messages(many, single);
    let mut all: Vec<String> = Vec::new();
    match many {
        Ok(v) => {
            all = v;
        },
        Err(e) => {
            if e.kind != crate::error::ErrorKind::NotImplemented {
                return Err(e.set_source(command_id));
            }
        },
    }
    match single {
        Ok(s) => {
            all.push(s);
        },
        Err(e) => {
            if e.kind != crate::error::ErrorKind::NotImplemented {
                return Err(e.set_source(command_id));
            }
        },
    }
    assert(crate::keyed::views_of(all@) =~= produced);
    let mut kept: Vec<String> = Vec::new();
    let mut i: usize = 0;
    while i < all.len()
        invariant
            i <= all.len(),
            crate::keyed::views_of(all@) == produced,
            crate::keyed::views_of(kept@) == non_empty_texts(produced.take(i as int)),
        decreases all.len() - i,
    {
        assert(produced.take(i + 1).drop_last() =~= produced.take(i as int));
        assert(produced.take(i + 1).last() == all@[i as int]@);
        if !all[i].as_str().is_empty() {
            let ghost before = crate::keyed::views_of(kept@);
            kept.push(all[i].clone());
            assert(crate::keyed::views_of(kept@) =~= before.push(all@[i as int]@));
        }
        i = i + 1;
    }
    assert(produced.take(all.len() as int) =~= produced);
    Ok(kept)
}

/// What executing a command comes to.
#[derive(Debug)]
pub enum ExecutionPlan {
    /// The command could not make its messages: report the error; the
    /// invocation id is 0.
    Failed(LkError),
    /// Send the messages to the connector under a new invocation id.
    Send { invocation_id: u64, kind: RequestKind, messages: Vec<String> },
}

/// Decides how a command is executed, given its connector messages (or why
/// there are none) and its action. A new invocation id is taken from
/// `last_invocation_id` only when the messages are there; output is followed
/// for commands whose action is to follow it.
pub fn plan_execution(
    last_invocation_id: &mut u64,
    messages: Result<Vec<String>, LkError>,
    action: crate::display_options::UIAction,
) -> (r: ExecutionPlan)
    requires
        *old(last_invocation_id) < u64::MAX,
    ensures
        match messages {
            Err(e) => r == ExecutionPlan::Failed(e) && *final(last_invocation_id) == *old(last_invocation_id),
            Ok(m) => *final(last_invocation_id) == *old(last_invocation_id) + 1 && r == ExecutionPlan::Send {
                invocation_id: *final(last_invocation_id),
                kind: if action == crate::display_options::UIAction::FollowOutput {
                    RequestKind::CommandFollowOutput
                } else {
                    RequestKind::Command
                },
                messages: m,
            },
        },
{
    match messages {
        Err(e) => ExecutionPlan::Failed(e),
        Ok(m) => {
            *last_invocation_id = *last_invocation_id + 1;
            let kind = if action == crate::display_options::UIAction::FollowOutput {
                RequestKind::CommandFollowOutput
            } else {
                RequestKind::Command
            };
            ExecutionPlan::Send { invocation_id: *last_invocation_id, kind, messages: m }
        },
    }
}


/// An exit request stops request processing whatever else holds, also when
/// it names no connector (as the stop token does); no other kind of
/// request stops it.
pub proof fn law_exit_always_stops(kind: RequestKind, names_connector: bool, connector_ready: bool, command_count: nat)
    ensures
        kind == RequestKind::Exit ==> route_of(kind, names_connector, connector_ready, command_count) == Route::Stop,
        kind != RequestKind::Exit ==> route_of(kind, names_connector, connector_ready, command_count) != Route::Stop,
{
}

} // verus!
