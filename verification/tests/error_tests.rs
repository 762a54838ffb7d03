use lightkeeper::error::{ErrorKind, LkError};

#[test]
fn error_constructors() {
    let e = LkError::new(ErrorKind::ConnectionFailed, "refused");
    assert_eq!(e.kind, ErrorKind::ConnectionFailed);
    assert_eq!(e.message, "refused");
    assert_eq!(e.source_id, "");
    assert!(e.parameter.is_none());

    let p = LkError::invalid_parameter("Bad value", "x");
    assert_eq!(p.kind, ErrorKind::InvalidParameter);
    assert_eq!(p.parameter, Some(String::from("x")));

    assert_eq!(LkError::not_implemented().kind, ErrorKind::NotImplemented);
    assert_eq!(LkError::unsupported_platform().kind, ErrorKind::UnsupportedPlatform);
    assert_eq!(LkError::unexpected().message, "An unexpected error occurred");
}

#[test]
fn host_key_error_carries_key() {
    let e = LkError::host_key_unverified("ssh", "Unknown key", "SHA256:abc");
    assert_eq!(e.kind, ErrorKind::HostKeyNotVerified);
    assert_eq!(e.source_id, "ssh");
    assert_eq!(e.parameter, Some(String::from("SHA256:abc")));
}

#[test]
fn other_with_parameter_names_it() {
    let e = LkError::other_p("Invalid port", "70000");
    assert_eq!(e.kind, ErrorKind::Other);
    assert_eq!(e.message, "Invalid port: 70000");
    assert_eq!(e.parameter, Some(String::from("70000")));
}

#[test]
fn display_string_with_and_without_source() {
    let e = LkError::other("boom");
    assert_eq!(e.to_display_string(), "boom");
    let s = e.set_source("uptime");
    assert_eq!(s.to_display_string(), "uptime: boom");
    let d = s.duplicate();
    assert_eq!(d.source_id, "uptime");
    assert_eq!(LkError::from_message(String::from("m")).message, "m");
}

#[test]
fn kind_names() {
    assert_eq!(ErrorKind::HostKeyNotVerified.name(), "HostKeyNotVerified");
    assert_eq!(ErrorKind::default_kind(), ErrorKind::Other);
}
