//! Decisions around the SSH connection to the admin host that runs the core
//! service: which host, port and user to log in as, which socket path to
//! use, what the probe commands print, and how a host key check is answered.
//! The session itself is opened and driven by the application.

use vstd::prelude::*;
use std::sync::atomic::AtomicBool;
use crate::configuration::opt_text_view;
use crate::digest::{content_hash, spec_sha256_hex};
use crate::text::{
    append_decimal, append_text, decimal_text, first_nonempty_line, first_nonempty_trimmed_line,
    trim, trim_spec,
};

verus! {

/// Prints the remote user's home directory.
pub const HOME_COMMAND: &'static str = "printf '%s' \"$HOME\"";

/// Prints where the core socket of the remote user is expected.
pub const SOCKET_DISCOVERY_COMMAND: &'static str = "if [ ! -z \"${XDG_DATA_HOME}\" ]; then printf '%s\\n' \"${XDG_DATA_HOME}/lightkeeper/core.sock\"; elif [ ! -z \"${HOME}\" ]; then printf '%s\\n' \"${HOME}/.local/share/lightkeeper/core.sock\"; else exit 1; fi";

/// Prints the path of an installed core binary, if any.
pub const FIND_CORE_BINARY_COMMAND: &'static str = "if command -v lightkeeper-core >/dev/null 2>&1; then command -v lightkeeper-core; elif [ -x \"${HOME}/.local/bin/lightkeeper-core\" ]; then printf '%s\\n' \"${HOME}/.local/bin/lightkeeper-core\"; elif [ -x /usr/bin/lightkeeper-core ]; then printf '%s\\n' /usr/bin/lightkeeper-core; fi";

/// Prints the operating system description.
pub const OS_RELEASE_COMMAND: &'static str = "cat /etc/os-release";

/// Prints the machine architecture.
pub const MACHINE_COMMAND: &'static str = "uname -m";

/// SSH port used when the profile names none.
pub const DEFAULT_SSH_PORT: u16 = 22;

/// How to reach the admin host that runs the core service.
#[derive(Debug)]
pub struct CoreConnectionProfile {
    pub host: String,
    pub port: Option<u16>,
    pub username: Option<String>,
    /// Socket of the core service; discovered on the host when unset.
    pub remote_socket_path: Option<String>,
}

impl CoreConnectionProfile {
    /// Whether an SSH host is set.
    pub fn is_configured(&self) -> (r: bool)
        ensures
            r == (self.host@.len() > 0),
    {
        !self.host.as_str().is_empty()
    }
}

/// Paths used when installing the core service for the remote user.
#[derive(Debug)]
pub struct CoreInstallPlan {
    pub binary_path: String,
    pub unit_path: String,
    pub socket_path: String,
}

/// What a probe of the admin host found, without connecting to the core.
#[derive(Debug)]
pub struct AdminHostProbe {
    /// Output of `cat /etc/os-release`, which describes the platform.
    pub os_release: String,
    /// Output of `uname -m`.
    pub machine: String,
    /// The socket path, when a socket is there.
    pub socket_path: Option<String>,
    /// Path of an installed core binary.
    pub binary_path: Option<String>,
    pub install_plan: CoreInstallPlan,
}

/// Host, port and user name an SSH session logs in with.
#[derive(Debug)]
pub struct SshTarget {
    pub host: String,
    pub port: u16,
    pub username: String,
}

/// Why a socket path is refused, if it is.
pub open spec fn socket_path_problem(p: Seq<char>) -> Option<Seq<char>> {
    if p.len() == 0 {
        Some("Remote core socket path is empty"@)
    } else if p[0] != '/' {
        Some("Remote core socket path must be absolute"@)
    } else if p.contains('\0') || p.contains('\n') {
        Some("Remote core socket path contains invalid characters"@)
    } else {
        None
    }
}

/// Checks a socket path: it must be absolute and hold no NUL or line break.
pub fn validate_remote_socket_path(path: &str) -> (r: Result<String, String>)
    ensures
        r matches Ok(p) ==> socket_path_problem(path@) is None && p@ == path@,
        r matches Err(e) ==> socket_path_problem(path@) == Some(e@),
{
    let chars = crate::text::chars_of(path);
    if chars.len() == 0 {
        return Err("Remote core socket path is empty".to_string());
    }
    if chars[0] != '/' {
        return Err("Remote core socket path must be absolute".to_string());
    }
    let mut i: usize = 0;
    while i < chars.len()
        invariant
            i <= chars.len(),
            chars@ == path@,
            chars.len() > 0 && chars@[0] == '/',
            forall|k: int| 0 <= k < i ==> chars@[k] != '\0' && chars@[k] != '\n',
        decreases chars.len() - i,
    {
        if chars[i] == '\0' || chars[i] == '\n' {
            proof {
                assert(path@[i as int] == chars@[i as int]);
                if chars@[i as int] == '\0' {
                    assert(path@.contains('\0'));
                } else {
                    assert(path@.contains('\n'));
                }
            }
            return Err("Remote core socket path contains invalid characters".to_string());
        }
        i = i + 1;
    }
    Ok(path.to_string())
}

/// The explicit socket path of a profile, checked.
pub open spec fn explicit_socket_outcome(path: Option<Seq<char>>) -> Result<Seq<char>, Seq<char>> {
    match path {
        None => Err("Remote core socket path is not set"@),
        Some(p) => match socket_path_problem(p) {
            Some(e) => Err(e),
            None => Ok(p),
        },
    }
}

/// The profile's own socket path, checked; an error when it has none.
pub fn resolve_remote_socket_path(profile: &CoreConnectionProfile) -> (r: Result<String, String>)
    ensures
        r matches Ok(p) ==> explicit_socket_outcome(opt_text_view(profile.remote_socket_path)) == Ok::<Seq<char>, Seq<char>>(p@),
        r matches Err(e) ==> explicit_socket_outcome(opt_text_view(profile.remote_socket_path)) == Err::<Seq<char>, Seq<char>>(e@),
{
    match &profile.remote_socket_path {
        None => Err("Remote core socket path is not set".to_string()),
        Some(path) => validate_remote_socket_path(path.as_str()),
    }
}

/// The socket path printed by the discovery command: its first non-blank
/// line, trimmed and checked.
pub open spec fn discovered_socket_outcome(output: Seq<char>) -> Result<Seq<char>, Seq<char>> {
    match first_nonempty_line(output) {
        None => Err("Remote socket discovery returned no path"@),
        Some(line) => match socket_path_problem(line) {
            Some(e) => Err(e),
            None => Ok(line),
        },
    }
}

/// Reads the socket path out of the discovery command's output.
pub fn parse_discovered_socket_path(output: &str) -> (r: Result<String, String>)
    ensures
        r matches Ok(p) ==> discovered_socket_outcome(output@) == Ok::<Seq<char>, Seq<char>>(p@),
        r matches Err(e) ==> discovered_socket_outcome(output@) == Err::<Seq<char>, Seq<char>>(e@),
{
    match first_nonempty_trimmed_line(output) {
        None => Err("Remote socket discovery returned no path".to_string()),
        Some(line) => validate_remote_socket_path(line.as_str()),
    }
}

/// The outcome of running the discovery command: its failure is reported as
/// a discovery failure, its output is parsed.
pub open spec fn discovery_outcome(result: Result<Seq<char>, Seq<char>>) -> Result<Seq<char>, Seq<char>> {
    match result {
        Err(e) => Err("Remote socket discovery failed: "@ + e),
        Ok(output) => discovered_socket_outcome(output),
    }
}

/// The socket path found by the discovery command, given how the command ran.
pub fn discovered_socket_path(result: Result<String, String>) -> (r: Result<String, String>)
    ensures
        r matches Ok(p) ==> discovery_outcome(result_view(result)) == Ok::<Seq<char>, Seq<char>>(p@),
        r matches Err(e) ==> discovery_outcome(result_view(result)) == Err::<Seq<char>, Seq<char>>(e@),
{
    match result {
        Err(e) => {
            let mut message = "Remote socket discovery failed: ".to_string();
            append_text(&mut message, e.as_str());
            Err(message)
        },
        Ok(output) => parse_discovered_socket_path(output.as_str()),
    }
}

/// A text result by the views of its texts.
pub open spec fn result_view(r: Result<String, String>) -> Result<Seq<char>, Seq<char>> {
    match r {
        Ok(s) => Ok(s@),
        Err(e) => Err(e@),
    }
}

/// Reads the binary path out of the binary-discovery command's output: its
/// first non-blank line, trimmed.
pub fn parse_core_binary_path(output: &str) -> (r: Option<String>)
    ensures
        opt_text_view(r) == first_nonempty_line(output@),
{
    first_nonempty_trimmed_line(output)
}

/// A path kept only when it is absolute.
pub open spec fn absolute_only(p: Option<Seq<char>>) -> Option<Seq<char>> {
    match p {
        Some(path) => if path.len() > 0 && path[0] == '/' { Some(path) } else { None },
        None => None,
    }
}

/// Keeps a found path only when it is absolute: the probe reports the
/// core binary by its absolute path or not at all.
pub fn absolute_path_only(p: Option<String>) -> (r: Option<String>)
    ensures
        opt_text_view(r) == absolute_only(opt_text_view(p)),
{
    match p {
        Some(path) => {
            let chars = crate::text::chars_of(path.as_str());
            if chars.len() > 0 && chars[0] == '/' {
                Some(path)
            } else {
                None
            }
        },
        None => None,
    }
}

/// The answer to a cancelled or a running connection attempt.
pub open spec fn cancel_outcome(cancelled: bool) -> Option<Seq<char>> {
    if cancelled {
        Some("SSH core connection cancelled"@)
    } else {
        None
    }
}

/// Fails when the attempt was cancelled.
pub fn cancel_result(cancelled: bool) -> (r: Result<(), String>)
    ensures
        r is Ok <==> cancel_outcome(cancelled) is None,
        r matches Err(e) ==> cancel_outcome(cancelled) == Some(e@),
{
    if cancelled {
        Err("SSH core connection cancelled".to_string())
    } else {
        Ok(())
    }
}

/// Fails when the flag says the attempt was cancelled. The flag may change
/// at any time, so only the error's text is stated.
pub fn check_cancel(cancel: &AtomicBool) -> (r: Result<(), String>)
    ensures
        r matches Err(e) ==> e@ == "SSH core connection cancelled"@,
{
    let cancelled = cancel.load(std::sync::atomic::Ordering::SeqCst);
    cancel_result(cancelled)
}

/// The user name a session logs in as: the profile's when set and not
/// empty, the fallback otherwise.
pub open spec fn login_name(configured: Option<Seq<char>>, fallback: Seq<char>) -> Seq<char> {
    match configured {
        Some(name) => if name.len() > 0 { name } else { fallback },
        None => fallback,
    }
}

/// The user name is refused when it starts with `-`.
pub open spec fn bad_login_name(name: Seq<char>) -> bool {
    name.len() > 0 && name[0] == '-'
}

/// What the login parameters of a profile come to, given whether the
/// attempt was cancelled: the checks in order (an SSH host must be set, the
/// attempt must not be cancelled, the user name must not start with `-`),
/// else the host, the port (22 by default) and the user name.
pub open spec fn target_result_is(
    profile: &CoreConnectionProfile,
    cancelled: bool,
    fallback: Seq<char>,
    r: Result<SshTarget, String>,
) -> bool {
    let name = login_name(opt_text_view(profile.username), fallback);
    if profile.host@.len() == 0 {
        r matches Err(e) && e@ == "Core connection profile has no SSH host"@
    } else if cancelled {
        r matches Err(e) && e@ == "SSH core connection cancelled"@
    } else if bad_login_name(name) {
        r matches Err(e) && e@ == "Invalid SSH username"@
    } else {
        r matches Ok(t) && {
            &&& t.host@ == profile.host@
            &&& t.port == (match profile.port { Some(p) => p, None => DEFAULT_SSH_PORT })
            &&& t.username@ == name
        }
    }
}

/// The login parameters of a profile, given whether the attempt was
/// cancelled.
pub fn ssh_target_for(profile: &CoreConnectionProfile, cancelled: bool, fallback_username: &str) -> (r: Result<SshTarget, String>)
    ensures
        target_result_is(profile, cancelled, fallback_username@, r),
{
    if !profile.is_configured() {
        return Err("Core connection profile has no SSH host".to_string());
    }
    cancel_result(cancelled)?;
    let port = match profile.port {
        Some(p) => p,
        None => DEFAULT_SSH_PORT,
    };
    let username = match &profile.username {
        Some(name) => if name.as_str().is_empty() {
            fallback_username.to_string()
        } else {
            name.clone()
        },
        None => fallback_username.to_string(),
    };
    let chars = crate::text::chars_of(username.as_str());
    if chars.len() > 0 && chars[0] == '-' {
        return Err("Invalid SSH username".to_string());
    }
    Ok(SshTarget { host: profile.host.clone(), port, username })
}

/// The login parameters of a profile, checked in order: an SSH host must be
/// set, the attempt must not be cancelled (the flag is read once, after the
/// host check), and the user name must not start with `-`. The flag may
/// change at any time, so the answer is either the cancel error or exactly
/// what the parameters come to when nothing was cancelled.
pub fn ssh_target(profile: &CoreConnectionProfile, cancel: &AtomicBool, fallback_username: &str) -> (r: Result<SshTarget, String>)
    ensures
        profile.host@.len() == 0 ==> (r matches Err(e) && e@ == "Core connection profile has no SSH host"@),
        (r matches Err(e) && e@ == "SSH core connection cancelled"@)
            || target_result_is(profile, false, fallback_username@, r),
{
    if !profile.is_configured() {
        return Err("Core connection profile has no SSH host".to_string());
    }
    let cancelled = cancel.load(std::sync::atomic::Ordering::SeqCst);
    ssh_target_for(profile, cancelled, fallback_username)
}

/// Where the core is installed for a user with home directory `home`.
pub open spec fn install_binary_path(home: Seq<char>) -> Seq<char> {
    home + "/.local/bin/lightkeeper-core"@
}

/// The service unit installed for a user with home directory `home`.
pub open spec fn install_unit_path(home: Seq<char>) -> Seq<char> {
    home + "/.config/systemd/user/lightkeeper-core.service"@
}

/// Whether the trimmed output of the home command is a usable home.
pub open spec fn usable_home(output: Seq<char>) -> bool {
    trim_spec(output).len() > 0 && trim_spec(output)[0] == '/'
}

/// The install plan, given what the home command printed: the trimmed home
/// must be an absolute path.
pub fn install_plan_from_home(home_output: &str, socket_path: &str) -> (r: Result<CoreInstallPlan, String>)
    ensures
        r is Ok <==> usable_home(home_output@),
        r matches Ok(plan) ==> {
            &&& plan.binary_path@ == install_binary_path(trim_spec(home_output@))
            &&& plan.unit_path@ == install_unit_path(trim_spec(home_output@))
            &&& plan.socket_path@ == socket_path@
        },
        r matches Err(e) ==> e@ == "Remote HOME is missing or invalid"@,
{
    let home = trim(home_output);
    let chars = crate::text::chars_of(home.as_str());
    if chars.len() == 0 || chars[0] != '/' {
        return Err("Remote HOME is missing or invalid".to_string());
    }
    let mut binary_path = home.clone();
    append_text(&mut binary_path, "/.local/bin/lightkeeper-core");
    let mut unit_path = home.clone();
    append_text(&mut unit_path, "/.config/systemd/user/lightkeeper-core.service");
    Ok(CoreInstallPlan { binary_path, unit_path, socket_path: socket_path.to_string() })
}

/// `s` with each `'` written as `'\''`, for use inside single quotes.
pub open spec fn single_quote_escaped(s: Seq<char>) -> Seq<char>
    decreases s.len(),
{
    if s.len() == 0 {
        Seq::empty()
    } else if s.last() == '\'' {
        single_quote_escaped(s.drop_last()) + "'\\''"@
    } else {
        single_quote_escaped(s.drop_last()).push(s.last())
    }
}

/// The command that prints `yes` when a socket exists at the path.
pub open spec fn socket_test_command_text(socket_path: Seq<char>) -> Seq<char> {
    "if [ -S '"@ + single_quote_escaped(socket_path) + "' ]; then printf yes; else printf no; fi"@
}

/// Builds the command that prints `yes` when a socket exists at the path.
pub fn socket_test_command(socket_path: &str) -> (r: String)
    ensures
        r@ == socket_test_command_text(socket_path@),
{
    let chars = crate::text::chars_of(socket_path);
    let mut command = "if [ -S '".to_string();
    let ghost start = command@;
    let mut i: usize = 0;
    while i < chars.len()
        invariant
            i <= chars.len(),
            chars@ == socket_path@,
            command@ == start + single_quote_escaped(socket_path@.take(i as int)),
        decreases chars.len() - i,
    {
        assert(socket_path@.take(i + 1).drop_last() =~= socket_path@.take(i as int));
        if chars[i] == '\'' {
            append_text(&mut command, "'\\''");
            assert(command@ =~= start + single_quote_escaped(socket_path@.take(i + 1)));
        } else {
            crate::text::push_char(&mut command, chars[i]);
            assert(command@ =~= start + single_quote_escaped(socket_path@.take(i + 1)));
        }
        i = i + 1;
    }
    assert(socket_path@.take(chars.len() as int) =~= socket_path@);
    append_text(&mut command, "' ]; then printf yes; else printf no; fi");
    command
}

/// Whether the socket test printed `yes` (surrounding white space aside).
pub fn socket_test_passed(output: &str) -> (r: bool)
    ensures
        r == (trim_spec(output@) == "yes"@),
{
    let trimmed = trim(output);
    crate::enums::str_equals(trimmed.as_str(), "yes")
}

/// How a remote command that exited with `exit_status` (none when unknown)
/// is answered: its output on status 0, otherwise an error naming the
/// status (-1 when unknown) and the command.
pub open spec fn command_outcome(output: Seq<char>, exit_status: Option<i32>, command: Seq<char>) -> Result<Seq<char>, Seq<char>> {
    let status: int = match exit_status {
        Some(s) => s as int,
        None => -1,
    };
    if status != 0 {
        Err("Remote command failed (exit "@ + decimal_text(status) + "): "@ + command)
    } else {
        Ok(output)
    }
}

/// Answers a finished remote command by its exit status.
pub fn command_result(output: String, exit_status: Option<i32>, command: &str) -> (r: Result<String, String>)
    ensures
        r matches Ok(o) ==> command_outcome(output@, exit_status, command@) == Ok::<Seq<char>, Seq<char>>(o@),
        r matches Err(e) ==> command_outcome(output@, exit_status, command@) == Err::<Seq<char>, Seq<char>>(e@),
{
    let status: i32 = match exit_status {
        Some(s) => s,
        None => -1,
    };
    if status != 0 {
        let mut message = "Remote command failed (exit ".to_string();
        append_decimal(&mut message, status as i64);
        append_text(&mut message, "): ");
        append_text(&mut message, command);
        Err(message)
    } else {
        Ok(output)
    }
}

/// What a known-hosts lookup said of the server's key.
#[derive(Clone, Copy, Debug, PartialEq, Eq, Structural)]
pub enum HostKeyCheck {
    Match,
    NotFound,
    Mismatch,
    Failure,
}

/// SHA-256 fingerprint of a host key, as lowercase hex.
pub fn key_fingerprint(key: &[u8]) -> (r: String)
    ensures
        r@ == spec_sha256_hex(key@),
        r@.len() == 64,
{
    content_hash(key)
}

/// The answer to a host key check, given the key's fingerprint.
pub open spec fn host_key_outcome(check: HostKeyCheck, hostname: Seq<char>, known_hosts_path: Seq<char>, fingerprint: Seq<char>) -> Option<Seq<char>> {
    match check {
        HostKeyCheck::Match => None,
        HostKeyCheck::NotFound => Some(
            "Host key for '"@ + hostname + "' was not found in "@ + known_hosts_path + ". Fingerprint SHA256: "@ + fingerprint,
        ),
        HostKeyCheck::Mismatch => Some(
            "Host key for '"@ + hostname + "' HAS CHANGED (see "@ + known_hosts_path + "). Fingerprint SHA256: "@ + fingerprint,
        ),
        HostKeyCheck::Failure => Some("Failed to check host key for '"@ + hostname + "'"@),
    }
}

/// Accepts a known key; otherwise explains, with the key's fingerprint,
/// why the host is not trusted.
pub fn host_key_verdict(check: HostKeyCheck, hostname: &str, known_hosts_path: &str, key: &[u8]) -> (r: Result<(), String>)
    ensures
        r is Ok <==> check == HostKeyCheck::Match,
        r matches Err(e) ==> host_key_outcome(check, hostname@, known_hosts_path@, spec_sha256_hex(key@)) == Some(e@),
{
    match check {
        HostKeyCheck::Match => Ok(()),
        HostKeyCheck::NotFound => {
            let fingerprint = key_fingerprint(key);
            let mut message = "Host key for '".to_string();
            append_text(&mut message, hostname);
            append_text(&mut message, "' was not found in ");
            append_text(&mut message, known_hosts_path);
            append_text(&mut message, ". Fingerprint SHA256: ");
            append_text(&mut message, fingerprint.as_str());
            Err(message)
        },
        HostKeyCheck::Mismatch => {
            let fingerprint = key_fingerprint(key);
            let mut message = "Host key for '".to_string();
            append_text(&mut message, hostname);
            append_text(&mut message, "' HAS CHANGED (see ");
            append_text(&mut message, known_hosts_path);
            append_text(&mut message, "). Fingerprint SHA256: ");
            append_text(&mut message, fingerprint.as_str());
            Err(message)
        },
        HostKeyCheck::Failure => {
            let mut message = "Failed to check host key for '".to_string();
            append_text(&mut message, hostname);
            append_text(&mut message, "'");
            Err(message)
        },
    }
}


/// Which command's result a probe waits for.
#[derive(Clone, Copy, Debug, PartialEq, Eq, Structural)]
pub enum ProbeStage {
    OsRelease,
    Machine,
    Discovery,
    SocketTest,
    Binary,
    Home,
}

/// A probe of the admin host in progress: what was found so far.
#[derive(Debug)]
pub struct AdminProbe {
    pub stage: ProbeStage,
    /// The profile's own socket path, which spares the discovery command.
    pub explicit_socket_path: Option<String>,
    pub os_release: String,
    pub machine: String,
    pub socket_path: String,
    pub socket_present: bool,
    pub binary_path: Option<String>,
}

/// What the application does next for a probe.
#[derive(Debug)]
pub enum ProbeAction {
    /// Run this command on the admin host and hand its result back.
    Run(String),
    /// The probe is over, with this result.
    Finish(Result<AdminHostProbe, String>),
}

pub struct AdminProbeView {
    pub stage: ProbeStage,
    pub explicit_socket_path: Option<Seq<char>>,
    pub os_release: Seq<char>,
    pub machine: Seq<char>,
    pub socket_path: Seq<char>,
    pub socket_present: bool,
    pub binary_path: Option<Seq<char>>,
}

pub struct AdminHostProbeView {
    pub os_release: Seq<char>,
    pub machine: Seq<char>,
    pub socket_path: Option<Seq<char>>,
    pub binary_path: Option<Seq<char>>,
    pub plan_binary_path: Seq<char>,
    pub plan_unit_path: Seq<char>,
    pub plan_socket_path: Seq<char>,
}

pub enum ProbeActionView {
    Run(Seq<char>),
    Finish(Result<AdminHostProbeView, Seq<char>>),
}

impl View for AdminProbe {
    type V = AdminProbeView;

    open spec fn view(&self) -> AdminProbeView {
        AdminProbeView {
            stage: self.stage,
            explicit_socket_path: opt_text_view(self.explicit_socket_path),
            os_release: self.os_release@,
            machine: self.machine@,
            socket_path: self.socket_path@,
            socket_present: self.socket_present,
            binary_path: opt_text_view(self.binary_path),
        }
    }
}

impl View for AdminHostProbe {
    type V = AdminHostProbeView;

    open spec fn view(&self) -> AdminHostProbeView {
        AdminHostProbeView {
            os_release: self.os_release@,
            machine: self.machine@,
            socket_path: opt_text_view(self.socket_path),
            binary_path: opt_text_view(self.binary_path),
            plan_binary_path: self.install_plan.binary_path@,
            plan_unit_path: self.install_plan.unit_path@,
            plan_socket_path: self.install_plan.socket_path@,
        }
    }
}

impl View for ProbeAction {
    type V = ProbeActionView;

    open spec fn view(&self) -> ProbeActionView {
        match self {
            ProbeAction::Run(c) => ProbeActionView::Run(c@),
            ProbeAction::Finish(Ok(p)) => ProbeActionView::Finish(Ok(p@)),
            ProbeAction::Finish(Err(e)) => ProbeActionView::Finish(Err(e@)),
        }
    }
}

/// The probe moved on to `stage`.
pub open spec fn probe_at(p: AdminProbeView, stage: ProbeStage) -> AdminProbeView {
    AdminProbeView { stage, ..p }
}

/// The findings of a probe whose last command printed the home directory.
pub open spec fn probe_findings(p: AdminProbeView, home_output: Seq<char>) -> AdminHostProbeView {
    AdminHostProbeView {
        os_release: p.os_release,
        machine: p.machine,
        socket_path: if p.socket_present { Some(p.socket_path) } else { None },
        binary_path: p.binary_path,
        plan_binary_path: install_binary_path(trim_spec(home_output)),
        plan_unit_path: install_unit_path(trim_spec(home_output)),
        plan_socket_path: p.socket_path,
    }
}

/// Goes on with the socket test once the socket path is known.
pub open spec fn probe_with_socket(p: AdminProbeView, path: Result<Seq<char>, Seq<char>>) -> (AdminProbeView, ProbeActionView) {
    match path {
        Err(e) => (p, ProbeActionView::Finish(Err(e))),
        Ok(path) => (
            AdminProbeView { stage: ProbeStage::SocketTest, socket_path: path, ..p },
            ProbeActionView::Run(socket_test_command_text(path)),
        ),
    }
}

/// One step of a probe: the state and the next action once the command
/// awaited at the current stage gave `result`. A failed command ends the
/// probe with its error (for the discovery command, reported as a discovery
/// failure).
pub open spec fn probe_step(p: AdminProbeView, result: Result<Seq<char>, Seq<char>>) -> (AdminProbeView, ProbeActionView) {
    match p.stage {
        ProbeStage::Discovery => probe_with_socket(p, discovery_outcome(result)),
        _ => match result {
            Err(e) => (p, ProbeActionView::Finish(Err(e))),
            Ok(output) => match p.stage {
                ProbeStage::OsRelease => (
                    AdminProbeView { stage: ProbeStage::Machine, os_release: output, ..p },
                    ProbeActionView::Run(MACHINE_COMMAND@),
                ),
                ProbeStage::Machine => {
                    let q = AdminProbeView { machine: output, ..p };
                    match p.explicit_socket_path {
                        None => (probe_at(q, ProbeStage::Discovery), ProbeActionView::Run(SOCKET_DISCOVERY_COMMAND@)),
                        Some(path) => probe_with_socket(q, explicit_socket_outcome(Some(path))),
                    }
                },
                ProbeStage::SocketTest => (
                    AdminProbeView {
                        stage: ProbeStage::Binary,
                        socket_present: trim_spec(output) == "yes"@,
                        ..p
                    },
                    ProbeActionView::Run(FIND_CORE_BINARY_COMMAND@),
                ),
                ProbeStage::Binary => (
                    AdminProbeView {
                        stage: ProbeStage::Home,
                        binary_path: absolute_only(first_nonempty_line(output)),
                        ..p
                    },
                    ProbeActionView::Run(HOME_COMMAND@),
                ),
                _ => if usable_home(output) {
                    (p, ProbeActionView::Finish(Ok(probe_findings(p, output))))
                } else {
                    (p, ProbeActionView::Finish(Err("Remote HOME is missing or invalid"@)))
                },
            },
        },
    }
}

impl AdminProbe {
    /// Starts probing the admin host of `profile`, over a session that is
    /// already open: the first command prints the operating system.
    pub fn start(profile: &CoreConnectionProfile) -> (r: (AdminProbe, ProbeAction))
        ensures
            r.0@ == (AdminProbeView {
                stage: ProbeStage::OsRelease,
                explicit_socket_path: opt_text_view(profile.remote_socket_path),
                os_release: Seq::empty(),
                machine: Seq::empty(),
                socket_path: Seq::empty(),
                socket_present: false,
                binary_path: None,
            }),
            r.1@ == ProbeActionView::Run(OS_RELEASE_COMMAND@),
    {
        let explicit_socket_path = match &profile.remote_socket_path {
            Some(path) => Some(path.clone()),
            None => None,
        };
        let probe = AdminProbe {
            stage: ProbeStage::OsRelease,
            explicit_socket_path,
            os_release: String::new(),
            machine: String::new(),
            socket_path: String::new(),
            socket_present: false,
            binary_path: None,
        };
        (probe, ProbeAction::Run(OS_RELEASE_COMMAND.to_string()))
    }

    /// Takes the result of the command the probe waited for and says what
    /// to do next.
    pub fn advance(self, result: Result<String, String>) -> (r: (AdminProbe, ProbeAction))
        ensures
            (r.0@, r.1@) == probe_step(self@, result_view(result)),
    {
        let mut probe = self;
        if probe.stage == ProbeStage::Discovery {
            return probe.continue_with_socket(discovered_socket_path(result));
        }
        let output = match result {
            Err(e) => {
                return (probe, ProbeAction::Finish(Err(e)));
            },
            Ok(output) => output,
        };
        match probe.stage {
            ProbeStage::OsRelease => {
                probe.os_release = output;
                probe.stage = ProbeStage::Machine;
                (probe, ProbeAction::Run(MACHINE_COMMAND.to_string()))
            },
            ProbeStage::Machine => {
                probe.machine = output;
                let explicit = match &probe.explicit_socket_path {
                    Some(path) => Some(validate_remote_socket_path(path.as_str())),
                    None => None,
                };
                match explicit {
                    None => {
                        probe.stage = ProbeStage::Discovery;
                        (probe, ProbeAction::Run(SOCKET_DISCOVERY_COMMAND.to_string()))
                    },
                    Some(checked) => probe.continue_with_socket(checked),
                }
            },
            ProbeStage::SocketTest => {
                probe.socket_present = socket_test_passed(output.as_str());
                probe.stage = ProbeStage::Binary;
                (probe, ProbeAction::Run(FIND_CORE_BINARY_COMMAND.to_string()))
            },
            ProbeStage::Binary => {
                probe.binary_path = absolute_path_only(parse_core_binary_path(output.as_str()));
                probe.stage = ProbeStage::Home;
                (probe, ProbeAction::Run(HOME_COMMAND.to_string()))
            },
            _ => {
                match install_plan_from_home(output.as_str(), probe.socket_path.as_str()) {
                    Err(e) => (probe, ProbeAction::Finish(Err(e))),
                    Ok(plan) => {
                        let findings = AdminHostProbe {
                            os_release: probe.os_release.clone(),
                            machine: probe.machine.clone(),
                            socket_path: if probe.socket_present {
                                Some(probe.socket_path.clone())
                            } else {
                                None
                            },
                            binary_path: match &probe.binary_path {
                                Some(b) => Some(b.clone()),
                                None => None,
                            },
                            install_plan: plan,
                        };
                        (probe, ProbeAction::Finish(Ok(findings)))
                    },
                }
            },
        }
    }

    fn continue_with_socket(self, path: Result<String, String>) -> (r: (AdminProbe, ProbeAction))
        ensures
            (r.0@, r.1@) == probe_with_socket(self@, result_view(path)),
    {
        let mut probe = self;
        match path {
            Err(e) => (probe, ProbeAction::Finish(Err(e))),
            Ok(path) => {
                let command = socket_test_command(path.as_str());
                probe.socket_path = path;
                probe.stage = ProbeStage::SocketTest;
                (probe, ProbeAction::Run(command))
            },
        }
    }
}

} // verus!
