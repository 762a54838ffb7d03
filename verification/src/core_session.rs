//! The decisions of a session with a remote core: the steps of bringing it
//! up and what they do to the link's status, how the handshake ends, what
//! the reader of the server's messages does with each of them, and the
//! user interface's steps of linking to a remote core.
//! Reading, writing and the threads are the caller's.

use vstd::prelude::*;
use crate::pending_rpc::PendingRpcKind;
use crate::text::{append_decimal, append_text, decimal_text};
use crate::core_connection::{CoreConnectionState, CoreConnectionStatus, error_after_state};
use crate::configuration::opt_text_view;

verus! {

/// What was read while waiting for the server's side of the handshake.
#[derive(Debug)]
pub enum HandshakeReply {
    /// The server's connect message, with its protocol version.
    Connect { protocol_version: u32 },
    /// An error message from the server, its code as text.
    Error { code: String, message: String },
    /// Any other message.
    OtherMessage,
    /// Nothing arrived in time.
    TimedOut,
    /// The stream ended.
    Closed,
    /// Reading failed otherwise; the error as text.
    Failed(String),
}

/// How the handshake ends: `Ok` only when the server speaks the expected
/// protocol version, otherwise the text of the failure.
pub open spec fn handshake_outcome(reply: HandshakeReply, expected_version: u32) -> Result<(), Seq<char>> {
    match reply {
        HandshakeReply::Connect { protocol_version } => if protocol_version == expected_version {
            Ok(())
        } else {
            Err(
                "Protocol mismatch: expected "@ + decimal_text(expected_version as int) + ", got "@ + decimal_text(
                    protocol_version as int,
                ),
            )
        },
        HandshakeReply::Error { code, message } => Err(code@ + ": "@ + message@),
        HandshakeReply::OtherMessage => Err("Unexpected message during remote core handshake"@),
        HandshakeReply::TimedOut => Err("Remote core handshake timed out"@),
        HandshakeReply::Closed => Err("Connection closed during remote core handshake"@),
        HandshakeReply::Failed(text) => Err(text@),
    }
}

/// Decides how the handshake ends.
pub fn handshake_result(reply: HandshakeReply, expected_version: u32) -> (r: Result<(), String>)
    ensures
        match (r, handshake_outcome(reply, expected_version)) {
            (Ok(()), Ok(())) => true,
            (Err(t), Err(u)) => t@ == u,
            _ => false,
        },
{
    match reply {
        HandshakeReply::Connect { protocol_version } => {
            if protocol_version == expected_version {
                Ok(())
            } else {
                let mut text = String::new();
                append_text(&mut text, "Protocol mismatch: expected ");
                append_decimal(&mut text, expected_version as i64);
                append_text(&mut text, ", got ");
                append_decimal(&mut text, protocol_version as i64);
                proof {
                    reveal_strlit("Protocol mismatch: expected ");
                    reveal_strlit(", got ");
                }
                Err(text)
            }
        },
        HandshakeReply::Error { code, message } => {
            let mut text = code;
            append_text(&mut text, ": ");
            append_text(&mut text, message.as_str());
            Err(text)
        },
        HandshakeReply::OtherMessage => Err("Unexpected message during remote core handshake".to_string()),
        HandshakeReply::TimedOut => Err("Remote core handshake timed out".to_string()),
        HandshakeReply::Closed => Err("Connection closed during remote core handshake".to_string()),
        HandshakeReply::Failed(text) => Err(text),
    }
}

/// What the reader of the server's messages met.
#[derive(Debug)]
pub enum ReaderEvent {
    /// The session is being stopped.
    StopRequested,
    /// Nothing arrived in time.
    ReadTimedOut,
    /// Reading failed otherwise; the error as text.
    ReadFailed(String),
    /// A connect message, which only belongs to the handshake.
    Connect,
    /// The reply to a request, of the kind that answers `kind`.
    Reply { request_id: u64, kind: PendingRpcKind },
    /// The state of hosts, to pass on to the user interface.
    HostUpdates,
    /// An error the server reports for one request.
    RequestError { request_id: u64, code: String, message: String },
    /// An error the server reports for the whole session.
    ServerError { code: String, message: String },
    /// Host states could not be passed on: the user interface no longer
    /// listens. `initial` tells the first full state from a later update.
    HostsUndelivered { initial: bool },
}

/// What the reader does next.
#[derive(Debug)]
pub enum ReaderAction {
    /// End reading without a word.
    Return,
    /// Read again.
    Continue,
    /// Hand the reply to the request that waits for it.
    Deliver { request_id: u64, kind: PendingRpcKind },
    /// Pass the host states on to the user interface.
    ForwardHosts,
    /// End the request with the server's error.
    FailRequest { request_id: u64, code: String, message: String },
    /// End the session: fail every waiting request with this message.
    Disconnect(String),
}

/// Decides what the reader does with what it met.
pub fn reader_action(event: ReaderEvent) -> (r: ReaderAction)
    ensures
        match event {
            ReaderEvent::StopRequested => r is Return,
            ReaderEvent::ReadTimedOut => r is Continue,
            ReaderEvent::Connect => r is Continue,
            ReaderEvent::ReadFailed(text) => r matches ReaderAction::Disconnect(m) && m@ == "Receive failed: "@
                + text@,
            ReaderEvent::Reply { request_id, kind } => r == ReaderAction::Deliver { request_id, kind },
            ReaderEvent::HostUpdates => r is ForwardHosts,
            ReaderEvent::RequestError { request_id, code, message } => r matches ReaderAction::FailRequest {
                request_id: id,
                code: c,
                message: m,
            } && id == request_id && c@ == code@ && m@ == message@,
            ReaderEvent::ServerError { code, message } => r matches ReaderAction::Disconnect(m) && m@
                == "Core server error ["@ + code@ + "]: "@ + message@,
            ReaderEvent::HostsUndelivered { initial } => r matches ReaderAction::Disconnect(m) && m@ == if initial {
                "Failed to deliver initial state update"@
            } else {
                "Failed to deliver host update"@
            },
        },
{
    match event {
        ReaderEvent::StopRequested => ReaderAction::Return,
        ReaderEvent::ReadTimedOut => ReaderAction::Continue,
        ReaderEvent::Connect => ReaderAction::Continue,
        ReaderEvent::ReadFailed(text) => {
            let mut m = "Receive failed: ".to_string();
            append_text(&mut m, text.as_str());
            ReaderAction::Disconnect(m)
        },
        ReaderEvent::Reply { request_id, kind } => ReaderAction::Deliver { request_id, kind },
        ReaderEvent::HostUpdates => ReaderAction::ForwardHosts,
        ReaderEvent::RequestError { request_id, code, message } => ReaderAction::FailRequest { request_id, code, message },
        ReaderEvent::ServerError { code, message } => {
            let mut m = "Core server error [".to_string();
            append_text(&mut m, code.as_str());
            append_text(&mut m, "]: ");
            append_text(&mut m, message.as_str());
            ReaderAction::Disconnect(m)
        },
        ReaderEvent::HostsUndelivered { initial } => {
            if initial {
                ReaderAction::Disconnect("Failed to deliver initial state update".to_string())
            } else {
                ReaderAction::Disconnect("Failed to deliver host update".to_string())
            }
        },
    }
}


/// Answer given when connecting is asked for without a core host set.
pub const PROFILE_REQUIRED: &'static str = "SSH host is required";

/// How a request to connect to a remote core ends for the user.
#[derive(PartialEq, Eq, Structural, Clone, Copy, Debug)]
pub enum CoreLinkOutcome {
    /// Connected: the answer is empty.
    Connected,
    /// No core host is set: the answer is the profile-required text.
    ProfileMissing,
    /// A step failed: the answer is that step's error.
    Failed,
}

/// Work that linking the user interface to a remote core asks for.
#[derive(PartialEq, Eq, Structural, Clone, Copy, Debug)]
pub enum CoreLinkAction {
    /// Try the profile with a throwaway client before anything is torn down.
    ProbeCore,
    /// Stop the local producers and go on with the remote core.
    DetachLocal,
    /// Stop the client of the previous link.
    StopPreviousClient,
    /// Connect a new client with the profile.
    ConnectClient,
    /// Serve configuration and commands through the new client.
    InstallBackends,
    /// Stop the new client.
    StopClient,
    /// Keep the new client as the current one.
    KeepClient,
    /// Forget the hosts shown.
    ClearHosts,
    /// Tell the user interface that the link changed.
    NotifyConnectionChanged,
    /// Tell the user interface that hosts were reloaded, with the step's
    /// error or with none.
    NotifyReloaded { with_error: bool },
    /// Answer the request.
    Finish(CoreLinkOutcome),
}

/// What happened on the way to (or away from) a remote core.
#[derive(PartialEq, Eq, Structural, Clone, Copy, Debug)]
pub enum CoreLinkEvent {
    /// Connecting was asked for.
    ConnectRequested { profile_configured: bool, using_remote: bool, has_client: bool },
    /// The probe ended.
    Probed { ok: bool },
    /// The new client's connection attempt ended.
    ClientConnected { ok: bool },
    /// Installing the remote backends ended.
    BackendsInstalled { ok: bool },
    /// Disconnecting was asked for.
    DisconnectRequested { has_client: bool },
}

/// The work each event calls for, in order.
pub open spec fn core_link_plan(event: CoreLinkEvent) -> Seq<CoreLinkAction> {
    match event {
        CoreLinkEvent::ConnectRequested { profile_configured, using_remote, has_client } => {
            if !profile_configured {
                seq![CoreLinkAction::Finish(CoreLinkOutcome::ProfileMissing)]
            } else if !using_remote {
                seq![CoreLinkAction::ProbeCore]
            } else if has_client {
                seq![CoreLinkAction::StopPreviousClient, CoreLinkAction::ConnectClient]
            } else {
                seq![CoreLinkAction::ConnectClient]
            }
        },
        CoreLinkEvent::Probed { ok } => {
            if ok {
                seq![CoreLinkAction::DetachLocal, CoreLinkAction::ConnectClient]
            } else {
                seq![CoreLinkAction::NotifyConnectionChanged, CoreLinkAction::Finish(CoreLinkOutcome::Failed)]
            }
        },
        CoreLinkEvent::ClientConnected { ok } => {
            if ok {
                seq![CoreLinkAction::InstallBackends]
            } else {
                seq![
                    CoreLinkAction::KeepClient,
                    CoreLinkAction::ClearHosts,
                    CoreLinkAction::NotifyConnectionChanged,
                    CoreLinkAction::NotifyReloaded { with_error: true },
                    CoreLinkAction::Finish(CoreLinkOutcome::Failed),
                ]
            }
        },
        CoreLinkEvent::BackendsInstalled { ok } => {
            if ok {
                seq![
                    CoreLinkAction::ClearHosts,
                    CoreLinkAction::KeepClient,
                    CoreLinkAction::NotifyConnectionChanged,
                    CoreLinkAction::NotifyReloaded { with_error: false },
                    CoreLinkAction::Finish(CoreLinkOutcome::Connected),
                ]
            } else {
                seq![
                    CoreLinkAction::StopClient,
                    CoreLinkAction::KeepClient,
                    CoreLinkAction::NotifyConnectionChanged,
                    CoreLinkAction::Finish(CoreLinkOutcome::Failed),
                ]
            }
        },
        CoreLinkEvent::DisconnectRequested { has_client } => {
            let rest = seq![
                CoreLinkAction::ClearHosts,
                CoreLinkAction::NotifyConnectionChanged,
                CoreLinkAction::NotifyReloaded { with_error: false },
            ];
            if has_client {
                seq![CoreLinkAction::StopPreviousClient] + rest
            } else {
                rest
            }
        },
    }
}

/// Decides the work an event of linking to a remote core calls for.
pub fn core_link_actions(event: CoreLinkEvent) -> (r: Vec<CoreLinkAction>)
    ensures
        r@ == core_link_plan(event),
{
    let r = match event {
        CoreLinkEvent::ConnectRequested { profile_configured, using_remote, has_client } => {
            if !profile_configured {
                vec![CoreLinkAction::Finish(CoreLinkOutcome::ProfileMissing)]
            } else if !using_remote {
                vec![CoreLinkAction::ProbeCore]
            } else if has_client {
                vec![CoreLinkAction::StopPreviousClient, CoreLinkAction::ConnectClient]
            } else {
                vec![CoreLinkAction::ConnectClient]
            }
        },
        CoreLinkEvent::Probed { ok } => {
            if ok {
                vec![CoreLinkAction::DetachLocal, CoreLinkAction::ConnectClient]
            } else {
                vec![CoreLinkAction::NotifyConnectionChanged, CoreLinkAction::Finish(CoreLinkOutcome::Failed)]
            }
        },
        CoreLinkEvent::ClientConnected { ok } => {
            if ok {
                vec![CoreLinkAction::InstallBackends]
            } else {
                vec![
                    CoreLinkAction::KeepClient,
                    CoreLinkAction::ClearHosts,
                    CoreLinkAction::NotifyConnectionChanged,
                    CoreLinkAction::NotifyReloaded { with_error: true },
                    CoreLinkAction::Finish(CoreLinkOutcome::Failed),
                ]
            }
        },
        CoreLinkEvent::BackendsInstalled { ok } => {
            if ok {
                vec![
                    CoreLinkAction::ClearHosts,
                    CoreLinkAction::KeepClient,
                    CoreLinkAction::NotifyConnectionChanged,
                    CoreLinkAction::NotifyReloaded { with_error: false },
                    CoreLinkAction::Finish(CoreLinkOutcome::Connected),
                ]
            } else {
                vec![
                    CoreLinkAction::StopClient,
                    CoreLinkAction::KeepClient,
                    CoreLinkAction::NotifyConnectionChanged,
                    CoreLinkAction::Finish(CoreLinkOutcome::Failed),
                ]
            }
        },
        CoreLinkEvent::DisconnectRequested { has_client } => {
            if has_client {
                vec![
                    CoreLinkAction::StopPreviousClient,
                    CoreLinkAction::ClearHosts,
                    CoreLinkAction::NotifyConnectionChanged,
                    CoreLinkAction::NotifyReloaded { with_error: false },
                ]
            } else {
                vec![
                    CoreLinkAction::ClearHosts,
                    CoreLinkAction::NotifyConnectionChanged,
                    CoreLinkAction::NotifyReloaded { with_error: false },
                ]
            }
        },
    };
    proof {
        assert(r@ =~= core_link_plan(event));
    }
    r
}


/// The local backend is torn down only after a probe of the profile
/// succeeded.
pub proof fn law_local_backend_kept_until_probe_succeeds(event: CoreLinkEvent)
    ensures
        core_link_plan(event).contains(CoreLinkAction::DetachLocal) ==> event == (CoreLinkEvent::Probed { ok: true }),
{
    let p = core_link_plan(event);
    if p.contains(CoreLinkAction::DetachLocal) {
        let i = choose|i: int| 0 <= i < p.len() && p[i] == CoreLinkAction::DetachLocal;
        assert(p[i] == CoreLinkAction::DetachLocal);
    }
}

/// Whatever happens, the work asked for holds at most one answer, and an
/// answer is the last thing done.
pub proof fn law_answer_comes_last(event: CoreLinkEvent, i: int)
    requires
        0 <= i < core_link_plan(event).len(),
        core_link_plan(event)[i] is Finish,
    ensures
        i == core_link_plan(event).len() - 1,
{
}


/// Error of a link that has nowhere to send host updates.
pub const MISSING_UI_SENDER: &'static str = "Missing UI update sender";

/// What happened while bringing a session with the core up.
#[derive(Debug)]
pub enum ConnectEvent {
    /// Connecting was asked for: whether a session is already up, and
    /// whether the user interface gave a sender for host updates.
    Requested { already_connected: bool, has_ui_sender: bool },
    /// A step failed (locking the connection, preparing the reader, the
    /// handshake, setting the read timeout): its error as text.
    StepFailed(String),
    /// The handshake succeeded and the stream is ready for reading.
    Ready,
}

/// What the connecting side does next.
#[derive(Debug)]
pub enum ConnectAction {
    /// Prepare the reader and perform the handshake.
    Handshake,
    /// Start reading the server's messages; the session is up.
    StartReader,
    /// Stop and answer the request.
    Finish(Result<(), String>),
}

/// How an event changes the status and what comes next: an existing
/// session answers `Ok` untouched; without a sender for updates the link
/// fails; otherwise the link is handshaking; any failed step fails the
/// link with its error; a ready stream makes the link connected.
pub open spec fn connect_step_ok(
    old_status: CoreConnectionStatus,
    event: ConnectEvent,
    new_status: CoreConnectionStatus,
    action: ConnectAction,
) -> bool {
    match event {
        ConnectEvent::Requested { already_connected, has_ui_sender } => if already_connected {
            &&& new_status.state == old_status.state
            &&& opt_text_view(new_status.last_error) == opt_text_view(old_status.last_error)
            &&& action matches ConnectAction::Finish(Ok(()))
        } else if !has_ui_sender {
            &&& new_status.state == CoreConnectionState::Failed
            &&& opt_text_view(new_status.last_error) == Some(MISSING_UI_SENDER@)
            &&& action matches ConnectAction::Finish(Err(e)) && e@ == MISSING_UI_SENDER@
        } else {
            &&& new_status.state == CoreConnectionState::Handshaking
            &&& opt_text_view(new_status.last_error) == error_after_state(
                CoreConnectionState::Handshaking,
                opt_text_view(old_status.last_error),
            )
            &&& action is Handshake
        },
        ConnectEvent::StepFailed(m) => {
            &&& new_status.state == CoreConnectionState::Failed
            &&& opt_text_view(new_status.last_error) == Some(m@)
            &&& action matches ConnectAction::Finish(Err(e)) && e@ == m@
        },
        ConnectEvent::Ready => {
            &&& new_status.state == CoreConnectionState::Connected
            &&& new_status.last_error is None
            &&& action is StartReader
        },
    }
}

/// Decides a step of bringing a session with the core up, and records it
/// in the status.
pub fn connect_step(status: &mut CoreConnectionStatus, event: ConnectEvent) -> (r: ConnectAction)
    ensures
        connect_step_ok(*old(status), event, *final(status), r),
{
    match event {
        ConnectEvent::Requested { already_connected, has_ui_sender } => {
            if already_connected {
                ConnectAction::Finish(Ok(()))
            } else if !has_ui_sender {
                status.set_failed(MISSING_UI_SENDER.to_string());
                ConnectAction::Finish(Err(MISSING_UI_SENDER.to_string()))
            } else {
                status.set_state(CoreConnectionState::Handshaking);
                ConnectAction::Handshake
            }
        },
        ConnectEvent::StepFailed(m) => {
            let answer = m.clone();
            status.set_failed(m);
            ConnectAction::Finish(Err(answer))
        },
        ConnectEvent::Ready => {
            status.set_state(CoreConnectionState::Connected);
            ConnectAction::StartReader
        },
    }
}

/// When the reader loses the session: unless the session is being stopped
/// on purpose, the link fails with `message` and the user interface is
/// told (the result says whether to tell it); a deliberate stop leaves the
/// status as it was.
pub fn reader_lost(status: &mut CoreConnectionStatus, stopping: bool, message: String) -> (notify: bool)
    ensures
        notify == !stopping,
        stopping ==> final(status).state == old(status).state
            && opt_text_view(final(status).last_error) == opt_text_view(old(status).last_error),
        !stopping ==> final(status).state == CoreConnectionState::Failed
            && opt_text_view(final(status).last_error) == Some(message@),
{
    if stopping {
        false
    } else {
        status.set_failed(message);
        true
    }
}


/// What happened while probing the core: opening a throwaway session,
/// handshaking and closing it again.
#[derive(Debug)]
pub enum ProbeEvent {
    /// A probe was asked for: whether a session is already up, and whether
    /// the core is reached over SSH (a profile is configured).
    Requested { connected: bool, profile_configured: bool },
    /// Opening the stream or preparing its reader failed: the error as text.
    StepFailed(String),
    /// The handshake ended; the throwaway session is closed either way.
    HandshakeDone(Result<(), String>),
}

/// What the prober does next.
#[derive(Debug)]
pub enum ProbeAction {
    /// Open a stream to the core and handshake over it.
    OpenStream,
    /// Stop and answer the probe.
    Finish(Result<(), String>),
}

/// How a probe event changes the status and what comes next: an existing
/// session answers `Ok` untouched; otherwise the link is connecting over
/// SSH (with a profile) or handshaking (without); a failed step or a failed
/// handshake fails the link with its error; a good handshake leaves the
/// link disconnected, with no error.
pub open spec fn probe_step_ok(
    old_status: CoreConnectionStatus,
    event: ProbeEvent,
    new_status: CoreConnectionStatus,
    action: ProbeAction,
) -> bool {
    match event {
        ProbeEvent::Requested { connected, profile_configured } => if connected {
            &&& new_status.state == old_status.state
            &&& opt_text_view(new_status.last_error) == opt_text_view(old_status.last_error)
            &&& action matches ProbeAction::Finish(Ok(()))
        } else {
            let state = if profile_configured {
                CoreConnectionState::ConnectingSsh
            } else {
                CoreConnectionState::Handshaking
            };
            &&& new_status.state == state
            &&& opt_text_view(new_status.last_error) == error_after_state(state, opt_text_view(old_status.last_error))
            &&& action is OpenStream
        },
        ProbeEvent::StepFailed(m) => {
            &&& new_status.state == CoreConnectionState::Failed
            &&& opt_text_view(new_status.last_error) == Some(m@)
            &&& action matches ProbeAction::Finish(Err(e)) && e@ == m@
        },
        ProbeEvent::HandshakeDone(result) => match result {
            Ok(()) => {
                &&& new_status.state == CoreConnectionState::Disconnected
                &&& new_status.last_error is None
                &&& action matches ProbeAction::Finish(Ok(()))
            },
            Err(m) => {
                &&& new_status.state == CoreConnectionState::Failed
                &&& opt_text_view(new_status.last_error) == Some(m@)
                &&& action matches ProbeAction::Finish(Err(e)) && e@ == m@
            },
        },
    }
}

/// Decides a step of probing the core, and records it in the status.
pub fn probe_step(status: &mut CoreConnectionStatus, event: ProbeEvent) -> (r: ProbeAction)
    ensures
        probe_step_ok(*old(status), event, *final(status), r),
{
    match event {
        ProbeEvent::Requested { connected, profile_configured } => {
            if connected {
                ProbeAction::Finish(Ok(()))
            } else {
                if profile_configured {
                    status.set_state(CoreConnectionState::ConnectingSsh);
                } else {
                    status.set_state(CoreConnectionState::Handshaking);
                }
                ProbeAction::OpenStream
            }
        },
        ProbeEvent::StepFailed(m) => {
            let answer = m.clone();
            status.set_failed(m);
            ProbeAction::Finish(Err(answer))
        },
        ProbeEvent::HandshakeDone(result) => match result {
            Ok(()) => {
                status.set_state(CoreConnectionState::Disconnected);
                ProbeAction::Finish(Ok(()))
            },
            Err(m) => {
                let answer = m.clone();
                status.set_failed(m);
                ProbeAction::Finish(Err(answer))
            },
        },
    }
}

/// Closing the session on purpose: the link ends up disconnected with no
/// error, and every waiting request is to be told the disconnect message.
pub fn stop_session(status: &mut CoreConnectionStatus) -> (message: String)
    ensures
        final(status).state == CoreConnectionState::Disconnected,
        final(status).last_error is None,
        message@ == crate::pending_rpc::DISCONNECTED_FROM_CORE@,
{
    status.set_state(CoreConnectionState::Disconnected);
    crate::pending_rpc::DISCONNECTED_FROM_CORE.to_string()
}

} // verus!
