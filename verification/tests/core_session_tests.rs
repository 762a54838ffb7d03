use lightkeeper::core_connection::{CoreConnectionState, CoreConnectionStatus};
use lightkeeper::core_session::{
    connect_step, probe_step, reader_lost, stop_session, ConnectAction, ConnectEvent, ProbeAction, ProbeEvent,
    core_link_actions, handshake_result, reader_action, CoreLinkAction, CoreLinkEvent, CoreLinkOutcome, HandshakeReply,
    ReaderAction, ReaderEvent,
};
use lightkeeper::pending_rpc::PendingRpcKind;

#[test]
fn handshake_accepts_matching_version() {
    assert_eq!(handshake_result(HandshakeReply::Connect { protocol_version: 3 }, 3), Ok(()));
}

#[test]
fn handshake_failures() {
    assert_eq!(
        handshake_result(HandshakeReply::Connect { protocol_version: 2 }, 3),
        Err(String::from("Protocol mismatch: expected 3, got 2"))
    );
    assert_eq!(
        handshake_result(HandshakeReply::Error { code: String::from("Internal"), message: String::from("boom") }, 3),
        Err(String::from("Internal: boom"))
    );
    assert_eq!(
        handshake_result(HandshakeReply::OtherMessage, 3),
        Err(String::from("Unexpected message during remote core handshake"))
    );
    assert_eq!(handshake_result(HandshakeReply::TimedOut, 3), Err(String::from("Remote core handshake timed out")));
    assert_eq!(
        handshake_result(HandshakeReply::Closed, 3),
        Err(String::from("Connection closed during remote core handshake"))
    );
    assert_eq!(handshake_result(HandshakeReply::Failed(String::from("broken")), 3), Err(String::from("broken")));
}

#[test]
fn reader_actions() {
    assert!(matches!(reader_action(ReaderEvent::StopRequested), ReaderAction::Return));
    assert!(matches!(reader_action(ReaderEvent::ReadTimedOut), ReaderAction::Continue));
    assert!(matches!(reader_action(ReaderEvent::Connect), ReaderAction::Continue));
    assert!(matches!(reader_action(ReaderEvent::HostUpdates), ReaderAction::ForwardHosts));
    match reader_action(ReaderEvent::ReadFailed(String::from("eof"))) {
        ReaderAction::Disconnect(m) => assert_eq!(m, "Receive failed: eof"),
        _ => panic!("expected disconnect"),
    }
    match reader_action(ReaderEvent::ServerError { code: String::from("Internal"), message: String::from("x") }) {
        ReaderAction::Disconnect(m) => assert_eq!(m, "Core server error [Internal]: x"),
        _ => panic!("expected disconnect"),
    }
    match reader_action(ReaderEvent::Reply { request_id: 9, kind: PendingRpcKind::Ack }) {
        ReaderAction::Deliver { request_id, kind } => {
            assert_eq!(request_id, 9);
            assert_eq!(kind, PendingRpcKind::Ack);
        },
        _ => panic!("expected delivery"),
    }
    match reader_action(ReaderEvent::RequestError { request_id: 4, code: String::from("NotFound"), message: String::from("no") }) {
        ReaderAction::FailRequest { request_id, code, message } => {
            assert_eq!(request_id, 4);
            assert_eq!(code, "NotFound");
            assert_eq!(message, "no");
        },
        _ => panic!("expected failure"),
    }
}

#[test]
fn connect_without_profile_is_refused() {
    let r = core_link_actions(CoreLinkEvent::ConnectRequested { profile_configured: false, using_remote: false, has_client: false });
    assert_eq!(r, vec![CoreLinkAction::Finish(CoreLinkOutcome::ProfileMissing)]);
}

#[test]
fn connect_from_local_probes_first() {
    let r = core_link_actions(CoreLinkEvent::ConnectRequested { profile_configured: true, using_remote: false, has_client: false });
    assert_eq!(r, vec![CoreLinkAction::ProbeCore]);
    let ok = core_link_actions(CoreLinkEvent::Probed { ok: true });
    assert_eq!(ok, vec![CoreLinkAction::DetachLocal, CoreLinkAction::ConnectClient]);
    let failed = core_link_actions(CoreLinkEvent::Probed { ok: false });
    assert_eq!(failed, vec![CoreLinkAction::NotifyConnectionChanged, CoreLinkAction::Finish(CoreLinkOutcome::Failed)]);
}

#[test]
fn reconnect_stops_previous_client() {
    let r = core_link_actions(CoreLinkEvent::ConnectRequested { profile_configured: true, using_remote: true, has_client: true });
    assert_eq!(r, vec![CoreLinkAction::StopPreviousClient, CoreLinkAction::ConnectClient]);
    let r = core_link_actions(CoreLinkEvent::ConnectRequested { profile_configured: true, using_remote: true, has_client: false });
    assert_eq!(r, vec![CoreLinkAction::ConnectClient]);
}

#[test]
fn connection_failure_and_success() {
    let failed = core_link_actions(CoreLinkEvent::ClientConnected { ok: false });
    assert_eq!(failed.last(), Some(&CoreLinkAction::Finish(CoreLinkOutcome::Failed)));
    assert!(failed.contains(&CoreLinkAction::NotifyReloaded { with_error: true }));
    assert_eq!(core_link_actions(CoreLinkEvent::ClientConnected { ok: true }), vec![CoreLinkAction::InstallBackends]);
    let done = core_link_actions(CoreLinkEvent::BackendsInstalled { ok: true });
    assert_eq!(done.last(), Some(&CoreLinkAction::Finish(CoreLinkOutcome::Connected)));
    let not_installed = core_link_actions(CoreLinkEvent::BackendsInstalled { ok: false });
    assert_eq!(not_installed[0], CoreLinkAction::StopClient);
}

#[test]
fn disconnect_clears_hosts() {
    let r = core_link_actions(CoreLinkEvent::DisconnectRequested { has_client: true });
    assert_eq!(
        r,
        vec![
            CoreLinkAction::StopPreviousClient,
            CoreLinkAction::ClearHosts,
            CoreLinkAction::NotifyConnectionChanged,
            CoreLinkAction::NotifyReloaded { with_error: false },
        ]
    );
    assert_eq!(core_link_actions(CoreLinkEvent::DisconnectRequested { has_client: false }).len(), 3);
}

#[test]
fn connect_steps_track_status() {
    let mut status = CoreConnectionStatus::new();
    let a = connect_step(&mut status, ConnectEvent::Requested { already_connected: false, has_ui_sender: false });
    assert!(matches!(a, ConnectAction::Finish(Err(ref e)) if e == "Missing UI update sender"));
    assert_eq!(status.state, CoreConnectionState::Failed);
    assert_eq!(status.last_error.as_deref(), Some("Missing UI update sender"));

    let a = connect_step(&mut status, ConnectEvent::Requested { already_connected: false, has_ui_sender: true });
    assert!(matches!(a, ConnectAction::Handshake));
    assert_eq!(status.state, CoreConnectionState::Handshaking);
    assert_eq!(status.last_error.as_deref(), Some("Missing UI update sender"));

    let a = connect_step(&mut status, ConnectEvent::StepFailed(String::from("Protocol mismatch")));
    assert!(matches!(a, ConnectAction::Finish(Err(ref e)) if e == "Protocol mismatch"));
    assert_eq!(status.last_error.as_deref(), Some("Protocol mismatch"));

    let a = connect_step(&mut status, ConnectEvent::Ready);
    assert!(matches!(a, ConnectAction::StartReader));
    assert_eq!(status.state, CoreConnectionState::Connected);
    assert_eq!(status.last_error, None);

    let a = connect_step(&mut status, ConnectEvent::Requested { already_connected: true, has_ui_sender: false });
    assert!(matches!(a, ConnectAction::Finish(Ok(()))));
    assert_eq!(status.state, CoreConnectionState::Connected);
}

#[test]
fn lost_session_fails_unless_stopping() {
    let mut status = CoreConnectionStatus::new();
    assert!(!reader_lost(&mut status, true, String::from("Receive failed: eof")));
    assert_eq!(status.state, CoreConnectionState::Disconnected);
    assert!(reader_lost(&mut status, false, String::from("Receive failed: eof")));
    assert_eq!(status.state, CoreConnectionState::Failed);
    assert_eq!(status.last_error.as_deref(), Some("Receive failed: eof"));
}

#[test]
fn probe_steps_track_status() {
    let mut status = CoreConnectionStatus::new();
    let a = probe_step(&mut status, ProbeEvent::Requested { connected: false, profile_configured: true });
    assert!(matches!(a, ProbeAction::OpenStream));
    assert_eq!(status.state, CoreConnectionState::ConnectingSsh);
    let a = probe_step(&mut status, ProbeEvent::HandshakeDone(Err(String::from("Protocol mismatch"))));
    assert!(matches!(a, ProbeAction::Finish(Err(ref e)) if e == "Protocol mismatch"));
    assert_eq!(status.state, CoreConnectionState::Failed);
    let a = probe_step(&mut status, ProbeEvent::Requested { connected: false, profile_configured: false });
    assert!(matches!(a, ProbeAction::OpenStream));
    assert_eq!(status.state, CoreConnectionState::Handshaking);
    let a = probe_step(&mut status, ProbeEvent::HandshakeDone(Ok(())));
    assert!(matches!(a, ProbeAction::Finish(Ok(()))));
    assert_eq!(status.state, CoreConnectionState::Disconnected);
    assert_eq!(status.last_error, None);
    let a = probe_step(&mut status, ProbeEvent::StepFailed(String::from("no socket")));
    assert!(matches!(a, ProbeAction::Finish(Err(ref e)) if e == "no socket"));
    assert_eq!(status.last_error.as_deref(), Some("no socket"));
    let a = probe_step(&mut status, ProbeEvent::Requested { connected: true, profile_configured: true });
    assert!(matches!(a, ProbeAction::Finish(Ok(()))));
    assert_eq!(status.state, CoreConnectionState::Failed);
}

#[test]
fn stopping_session_disconnects() {
    let mut status = CoreConnectionStatus::new();
    status.set_failed(String::from("x"));
    assert_eq!(stop_session(&mut status), "Disconnected from remote core");
    assert_eq!(status.state, CoreConnectionState::Disconnected);
    assert_eq!(status.last_error, None);
}

#[test]
fn undelivered_host_updates_end_session() {
    match reader_action(ReaderEvent::HostsUndelivered { initial: true }) {
        ReaderAction::Disconnect(m) => assert_eq!(m, "Failed to deliver initial state update"),
        _ => panic!("disconnect expected"),
    }
    match reader_action(ReaderEvent::HostsUndelivered { initial: false }) {
        ReaderAction::Disconnect(m) => assert_eq!(m, "Failed to deliver host update"),
        _ => panic!("disconnect expected"),
    }
}
