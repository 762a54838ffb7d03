use lightkeeper::core_connection::{CoreConnectionState, CoreConnectionStatus};

#[test]
fn failure_is_kept_until_connected() {
    let mut status = CoreConnectionStatus::new();
    assert_eq!(status.state, CoreConnectionState::Disconnected);
    assert!(status.last_error.is_none());

    status.set_failed(String::from("SSH handshake failed"));
    assert_eq!(status.state, CoreConnectionState::Failed);
    status.set_state(CoreConnectionState::Reconnecting);
    assert_eq!(status.last_error, Some(String::from("SSH handshake failed")));
    status.set_state(CoreConnectionState::Handshaking);
    assert_eq!(status.last_error, Some(String::from("SSH handshake failed")));
    status.set_state(CoreConnectionState::Connected);
    assert!(status.last_error.is_none());
}

#[test]
fn disconnecting_clears_the_error() {
    let mut status = CoreConnectionStatus::new();
    status.set_failed(String::from("x"));
    status.set_state(CoreConnectionState::Disconnected);
    assert!(status.last_error.is_none());
    assert_eq!(CoreConnectionState::ConnectingSsh.to_text(), "connecting_ssh");
    assert_eq!(CoreConnectionState::default_value(), CoreConnectionState::Disconnected);
}
