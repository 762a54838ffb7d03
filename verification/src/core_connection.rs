//! Lifecycle of the link between the desktop and the core service on an
//! admin host.

use vstd::prelude::*;
use crate::configuration::opt_text_view;

verus! {

/// Runtime connection lifecycle for the desktop to admin-host core link.
#[derive(Debug, Clone, Copy, PartialEq, Eq, Structural)]
pub enum CoreConnectionState {
    Disconnected,
    ConnectingSsh,
    Handshaking,
    Connected,
    Reconnecting,
    Failed,
}

/// Snake-case name of each state.
pub open spec fn core_connection_state_name(s: CoreConnectionState) -> Seq<char> {
    match s {
        CoreConnectionState::Disconnected => "disconnected"@,
        CoreConnectionState::ConnectingSsh => "connecting_ssh"@,
        CoreConnectionState::Handshaking => "handshaking"@,
        CoreConnectionState::Connected => "connected"@,
        CoreConnectionState::Reconnecting => "reconnecting"@,
        CoreConnectionState::Failed => "failed"@,
    }
}

impl CoreConnectionState {
    /// The default state, `Disconnected`.
    pub fn default_value() -> (s: CoreConnectionState)
        ensures
            s == CoreConnectionState::Disconnected,
    {
        CoreConnectionState::Disconnected
    }

    /// The snake-case name.
    pub fn to_text(&self) -> (t: String)
        ensures
            t@ == core_connection_state_name(*self),
    {
        let t = match self {
            CoreConnectionState::Disconnected => "disconnected",
            CoreConnectionState::ConnectingSsh => "connecting_ssh",
            CoreConnectionState::Handshaking => "handshaking",
            CoreConnectionState::Connected => "connected",
            CoreConnectionState::Reconnecting => "reconnecting",
            CoreConnectionState::Failed => "failed",
        };
        t.to_string()
    }
}

/// State of the link and the last actionable error for the UI.
#[derive(Debug, Clone)]
pub struct CoreConnectionStatus {
    pub state: CoreConnectionState,
    /// Last actionable transport or handshake error for the UI.
    pub last_error: Option<String>,
}

/// The status after entering `state`: the error is cleared on `Connected` and
/// `Disconnected` and kept otherwise.
pub open spec fn error_after_state(state: CoreConnectionState, old_error: Option<Seq<char>>) -> Option<Seq<char>> {
    match state {
        CoreConnectionState::Connected | CoreConnectionState::Disconnected => None,
        _ => old_error,
    }
}

impl CoreConnectionStatus {
    /// Disconnected, with no error.
    pub fn new() -> (s: CoreConnectionStatus)
        ensures
            s.state == CoreConnectionState::Disconnected,
            s.last_error is None,
    {
        CoreConnectionStatus { state: CoreConnectionState::Disconnected, last_error: None }
    }

    /// Enters `state`; reaching `Connected` or `Disconnected` clears the error.
    pub fn set_state(&mut self, state: CoreConnectionState)
        ensures
            final(self).state == state,
            opt_text_view(final(self).last_error) == error_after_state(state, opt_text_view(old(self).last_error)),
    {
        self.state = state;
        match state {
            CoreConnectionState::Connected | CoreConnectionState::Disconnected => {
                self.last_error = None;
            },
            CoreConnectionState::Failed => {},
            _ => {},
        }
    }

    /// Enters `Failed` and records `message` as the last error.
    pub fn set_failed(&mut self, message: String)
        ensures
            final(self).state == CoreConnectionState::Failed,
            opt_text_view(final(self).last_error) == Some(message@),
    {
        self.state = CoreConnectionState::Failed;
        self.last_error = Some(message);
    }
}

/// A failure is remembered until the link is established or closed: after
/// `set_failed(m)`, any number of states other than `Connected` and
/// `Disconnected` keep `m` as the last error, and either of those two clears it.
pub proof fn law_failure_kept_until_connected_or_disconnected(
    message: Seq<char>,
    state: CoreConnectionState,
)
    ensures
        state != CoreConnectionState::Connected && state != CoreConnectionState::Disconnected
            ==> error_after_state(state, Some(message)) == Some(message),
        state == CoreConnectionState::Connected || state == CoreConnectionState::Disconnected
            ==> error_after_state(state, Some(message)) is None,
{
}


/// One call that changes a connection status, for reasoning about runs of
/// calls: `set_state` with a state, or `set_failed` with a message.
pub enum StatusCall {
    SetState(CoreConnectionState),
    SetFailed(Seq<char>),
}

/// The last error after one call, as `set_state` and `set_failed` state it.
pub open spec fn error_after_call(call: StatusCall, old_error: Option<Seq<char>>) -> Option<Seq<char>> {
    match call {
        StatusCall::SetState(state) => error_after_state(state, old_error),
        StatusCall::SetFailed(m) => Some(m),
    }
}

/// The state after one call.
pub open spec fn state_after_call(call: StatusCall, old_state: CoreConnectionState) -> CoreConnectionState {
    match call {
        StatusCall::SetState(state) => state,
        StatusCall::SetFailed(_) => CoreConnectionState::Failed,
    }
}

/// The last error after a run of calls, starting from `start`.
pub open spec fn error_after_calls(calls: Seq<StatusCall>, start: Option<Seq<char>>) -> Option<Seq<char>>
    decreases calls.len(),
{
    if calls.len() == 0 {
        start
    } else {
        error_after_call(calls.last(), error_after_calls(calls.drop_last(), start))
    }
}

/// The state after a run of calls, starting from `start`.
pub open spec fn state_after_calls(calls: Seq<StatusCall>, start: CoreConnectionState) -> CoreConnectionState
    decreases calls.len(),
{
    if calls.len() == 0 {
        start
    } else {
        state_after_call(calls.last(), state_after_calls(calls.drop_last(), start))
    }
}

/// A call that decides the last error: a failure, or reaching `Connected`
/// or `Disconnected`.
pub open spec fn decisive(call: StatusCall) -> bool {
    match call {
        StatusCall::SetFailed(_) => true,
        StatusCall::SetState(state) => state == CoreConnectionState::Connected || state
            == CoreConnectionState::Disconnected,
    }
}

/// Over any run of calls, the last error is the message of the latest
/// decisive call when that call is a failure, none when it is reaching
/// `Connected` or `Disconnected`, and the starting error when no call was
/// decisive. In particular a status in `Connected` or `Disconnected` holds
/// no error.
pub proof fn law_last_error_follows_latest_decisive_call(
    calls: Seq<StatusCall>,
    start_state: CoreConnectionState,
    start_error: Option<Seq<char>>,
    i: int,
)
    requires
        0 <= i < calls.len(),
        decisive(calls[i]),
        forall|j: int| i < j < calls.len() ==> !decisive(#[trigger] calls[j]),
    ensures
        error_after_calls(calls, start_error) == match calls[i] {
            StatusCall::SetFailed(m) => Some(m),
            StatusCall::SetState(_) => None::<Seq<char>>,
        },
        ({
            let state = state_after_calls(calls, start_state);
            state == CoreConnectionState::Connected || state == CoreConnectionState::Disconnected
        }) ==> error_after_calls(calls, start_error) is None,
    decreases calls.len(),
{
    if i < calls.len() - 1 {
        let rest = calls.drop_last();
        assert forall|j: int| i < j < rest.len() implies !decisive(#[trigger] rest[j]) by {
            assert(rest[j] == calls[j]);
        }
        law_last_error_follows_latest_decisive_call(rest, start_state, start_error, i);
        assert(rest[i] == calls[i]);
        assert(!decisive(calls.last()));
    }
}

/// With no decisive call in a run, the last error stays the starting one.
pub proof fn law_last_error_kept_without_decisive_call(calls: Seq<StatusCall>, start_error: Option<Seq<char>>)
    requires
        forall|j: int| 0 <= j < calls.len() ==> !decisive(#[trigger] calls[j]),
    ensures
        error_after_calls(calls, start_error) == start_error,
    decreases calls.len(),
{
    if calls.len() > 0 {
        let rest = calls.drop_last();
        assert forall|j: int| 0 <= j < rest.len() implies !decisive(#[trigger] rest[j]) by {
            assert(rest[j] == calls[j]);
        }
        law_last_error_kept_without_decisive_call(rest, start_error);
        assert(!decisive(calls[calls.len() - 1]));
    }
}

} // verus!
