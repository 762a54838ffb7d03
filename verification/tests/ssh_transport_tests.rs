use std::sync::atomic::AtomicBool;

use lightkeeper::ssh_transport::{
    cancel_result, check_cancel, command_result, discovered_socket_path, host_key_verdict, install_plan_from_home,
    parse_core_binary_path, parse_discovered_socket_path, resolve_remote_socket_path, socket_test_command,
    socket_test_passed, ssh_target, ssh_target_for, absolute_path_only, validate_remote_socket_path, AdminProbe, CoreConnectionProfile, HostKeyCheck,
    ProbeAction, FIND_CORE_BINARY_COMMAND, HOME_COMMAND, MACHINE_COMMAND, OS_RELEASE_COMMAND,
    SOCKET_DISCOVERY_COMMAND,
};

fn profile(host: &str, socket: Option<&str>) -> CoreConnectionProfile {
    CoreConnectionProfile {
        host: host.to_string(),
        port: None,
        username: None,
        remote_socket_path: socket.map(|s| s.to_string()),
    }
}

#[test]
fn socket_path_validation() {
    assert_eq!(validate_remote_socket_path("/run/user/1000/core.sock"), Ok(String::from("/run/user/1000/core.sock")));
    assert_eq!(validate_remote_socket_path(""), Err(String::from("Remote core socket path is empty")));
    assert_eq!(validate_remote_socket_path("run/core.sock"), Err(String::from("Remote core socket path must be absolute")));
    assert_eq!(
        validate_remote_socket_path("/tmp/a\nb"),
        Err(String::from("Remote core socket path contains invalid characters"))
    );
    assert_eq!(
        validate_remote_socket_path("/tmp/a\0b"),
        Err(String::from("Remote core socket path contains invalid characters"))
    );
}

#[test]
fn explicit_socket_path() {
    assert_eq!(resolve_remote_socket_path(&profile("h", None)), Err(String::from("Remote core socket path is not set")));
    assert_eq!(resolve_remote_socket_path(&profile("h", Some("/s.sock"))), Ok(String::from("/s.sock")));
    assert_eq!(resolve_remote_socket_path(&profile("h", Some("s.sock"))), Err(String::from("Remote core socket path must be absolute")));
}

#[test]
fn discovery_output_parsing() {
    assert_eq!(
        parse_discovered_socket_path("\n  /home/u/.local/share/lightkeeper/core.sock  \n"),
        Ok(String::from("/home/u/.local/share/lightkeeper/core.sock"))
    );
    assert_eq!(parse_discovered_socket_path("  \n"), Err(String::from("Remote socket discovery returned no path")));
    assert_eq!(parse_discovered_socket_path("relative\n"), Err(String::from("Remote core socket path must be absolute")));
    assert_eq!(
        discovered_socket_path(Err(String::from("Remote command failed (exit 1): x"))),
        Err(String::from("Remote socket discovery failed: Remote command failed (exit 1): x"))
    );
}

#[test]
fn binary_path_parsing() {
    assert_eq!(parse_core_binary_path("/usr/bin/lightkeeper-core\n"), Some(String::from("/usr/bin/lightkeeper-core")));
    assert_eq!(parse_core_binary_path(""), None);
}

#[test]
fn cancelling() {
    assert_eq!(cancel_result(true), Err(String::from("SSH core connection cancelled")));
    assert_eq!(cancel_result(false), Ok(()));
    assert_eq!(check_cancel(&AtomicBool::new(true)), Err(String::from("SSH core connection cancelled")));
    assert_eq!(check_cancel(&AtomicBool::new(false)), Ok(()));
}

#[test]
fn login_parameters() {
    let not_cancelled = AtomicBool::new(false);
    let unconfigured = ssh_target(&profile("", None), &not_cancelled, "root");
    assert_eq!(unconfigured.unwrap_err(), "Core connection profile has no SSH host");

    let t = ssh_target(&profile("admin.example.com", None), &not_cancelled, "alice").unwrap();
    assert_eq!(t.host, "admin.example.com");
    assert_eq!(t.port, 22);
    assert_eq!(t.username, "alice");

    let mut p = profile("h", None);
    p.port = Some(2222);
    p.username = Some(String::new());
    let t = ssh_target(&p, &not_cancelled, "root").unwrap();
    assert_eq!(t.port, 2222);
    assert_eq!(t.username, "root");

    p.username = Some(String::from("-oProxyCommand=x"));
    assert_eq!(ssh_target(&p, &not_cancelled, "root").unwrap_err(), "Invalid SSH username");
    assert_eq!(ssh_target(&p, &AtomicBool::new(true), "root").unwrap_err(), "SSH core connection cancelled");
}

#[test]
fn install_plan_from_home_directory() {
    let plan = install_plan_from_home("  /home/alice\n", "/run/core.sock").unwrap();
    assert_eq!(plan.binary_path, "/home/alice/.local/bin/lightkeeper-core");
    assert_eq!(plan.unit_path, "/home/alice/.config/systemd/user/lightkeeper-core.service");
    assert_eq!(plan.socket_path, "/run/core.sock");
    assert_eq!(install_plan_from_home("", "/s").unwrap_err(), "Remote HOME is missing or invalid");
    assert_eq!(install_plan_from_home("home", "/s").unwrap_err(), "Remote HOME is missing or invalid");
}

#[test]
fn socket_test_command_quotes_path() {
    assert_eq!(socket_test_command("/run/a.sock"), "if [ -S '/run/a.sock' ]; then printf yes; else printf no; fi");
    assert_eq!(socket_test_command("/tmp/it's"), "if [ -S '/tmp/it'\\''s' ]; then printf yes; else printf no; fi");
    assert!(socket_test_passed(" yes\n"));
    assert!(!socket_test_passed("no"));
    assert!(!socket_test_passed("yess"));
}

#[test]
fn remote_command_exit_status() {
    assert_eq!(command_result(String::from("out"), Some(0), "ls"), Ok(String::from("out")));
    assert_eq!(command_result(String::from("out"), Some(2), "ls"), Err(String::from("Remote command failed (exit 2): ls")));
    assert_eq!(command_result(String::new(), None, "uname -m"), Err(String::from("Remote command failed (exit -1): uname -m")));
}

#[test]
fn host_key_answers() {
    let key = b"hello";
    assert_eq!(host_key_verdict(HostKeyCheck::Match, "h", "/k", key), Ok(()));
    assert_eq!(
        host_key_verdict(HostKeyCheck::NotFound, "h", "/cfg/known_hosts", key),
        Err(String::from(
            "Host key for 'h' was not found in /cfg/known_hosts. Fingerprint SHA256: 2cf24dba5fb0a30e26e83b2ac5b9e29e1b161e5c1fa7425e73043362938b9824"
        ))
    );
    assert_eq!(
        host_key_verdict(HostKeyCheck::Mismatch, "h", "/cfg/known_hosts", key),
        Err(String::from(
            "Host key for 'h' HAS CHANGED (see /cfg/known_hosts). Fingerprint SHA256: 2cf24dba5fb0a30e26e83b2ac5b9e29e1b161e5c1fa7425e73043362938b9824"
        ))
    );
    assert_eq!(host_key_verdict(HostKeyCheck::Failure, "h", "/k", key), Err(String::from("Failed to check host key for 'h'")));
}

fn expect_run(action: &ProbeAction, command: &str) {
    match action {
        ProbeAction::Run(c) => assert_eq!(c, command),
        ProbeAction::Finish(_) => panic!("probe finished early"),
    }
}

#[test]
fn probe_with_discovery_runs_commands_in_order() {
    let (probe, action) = AdminProbe::start(&profile("h", None));
    expect_run(&action, OS_RELEASE_COMMAND);
    let (probe, action) = probe.advance(Ok(String::from("ID=debian\n")));
    expect_run(&action, MACHINE_COMMAND);
    let (probe, action) = probe.advance(Ok(String::from("x86_64\n")));
    expect_run(&action, SOCKET_DISCOVERY_COMMAND);
    let (probe, action) = probe.advance(Ok(String::from("/home/u/.local/share/lightkeeper/core.sock\n")));
    expect_run(&action, "if [ -S '/home/u/.local/share/lightkeeper/core.sock' ]; then printf yes; else printf no; fi");
    let (probe, action) = probe.advance(Ok(String::from("yes")));
    expect_run(&action, FIND_CORE_BINARY_COMMAND);
    let (probe, action) = probe.advance(Ok(String::from("/usr/bin/lightkeeper-core\n")));
    expect_run(&action, HOME_COMMAND);
    let (_probe, action) = probe.advance(Ok(String::from("/home/u")));
    match action {
        ProbeAction::Finish(Ok(found)) => {
            assert_eq!(found.os_release, "ID=debian\n");
            assert_eq!(found.machine, "x86_64\n");
            assert_eq!(found.socket_path, Some(String::from("/home/u/.local/share/lightkeeper/core.sock")));
            assert_eq!(found.binary_path, Some(String::from("/usr/bin/lightkeeper-core")));
            assert_eq!(found.install_plan.binary_path, "/home/u/.local/bin/lightkeeper-core");
            assert_eq!(found.install_plan.socket_path, "/home/u/.local/share/lightkeeper/core.sock");
        }
        _ => panic!("probe did not finish"),
    }
}

#[test]
fn probe_with_explicit_socket_and_failures() {
    let (probe, _) = AdminProbe::start(&profile("h", Some("/custom.sock")));
    let (probe, _) = probe.advance(Ok(String::from("ID=fedora")));
    let (probe, action) = probe.advance(Ok(String::from("aarch64")));
    expect_run(&action, "if [ -S '/custom.sock' ]; then printf yes; else printf no; fi");
    let (probe, _) = probe.advance(Ok(String::from("no")));
    let (probe, _) = probe.advance(Ok(String::new()));
    let (_, action) = probe.advance(Ok(String::from("/root")));
    match action {
        ProbeAction::Finish(Ok(found)) => {
            assert_eq!(found.socket_path, None);
            assert_eq!(found.binary_path, None);
        }
        _ => panic!("probe did not finish"),
    }

    let (probe, _) = AdminProbe::start(&profile("h", Some("relative.sock")));
    let (probe, _) = probe.advance(Ok(String::from("ID=x")));
    let (_, action) = probe.advance(Ok(String::from("x86_64")));
    match action {
        ProbeAction::Finish(Err(e)) => assert_eq!(e, "Remote core socket path must be absolute"),
        _ => panic!("expected failure"),
    }

    let (probe, _) = AdminProbe::start(&profile("h", None));
    let (_, action) = probe.advance(Err(String::from("Remote command failed (exit 1): cat /etc/os-release")));
    match action {
        ProbeAction::Finish(Err(e)) => assert_eq!(e, "Remote command failed (exit 1): cat /etc/os-release"),
        _ => panic!("expected failure"),
    }
}

#[test]
fn login_parameters_for_cancel_flag_value() {
    let mut p = profile("h", None);
    p.port = Some(2200);
    assert_eq!(ssh_target_for(&profile("", None), true, "root").unwrap_err(), "Core connection profile has no SSH host");
    assert_eq!(ssh_target_for(&p, true, "root").unwrap_err(), "SSH core connection cancelled");
    let t = ssh_target_for(&p, false, "bob").unwrap();
    assert_eq!((t.host.as_str(), t.port, t.username.as_str()), ("h", 2200, "bob"));
    p.username = Some(String::from("-x"));
    assert_eq!(ssh_target_for(&p, false, "root").unwrap_err(), "Invalid SSH username");
}

#[test]
fn found_binary_must_be_absolute() {
    assert_eq!(absolute_path_only(Some(String::from("/usr/bin/lightkeeper-core"))), Some(String::from("/usr/bin/lightkeeper-core")));
    assert_eq!(absolute_path_only(Some(String::from("lightkeeper-core"))), None);
    assert_eq!(absolute_path_only(None), None);
}
