//! What the user interface learns of a host's commands, and the checks made
//! around editing remote files.

use vstd::prelude::*;
use crate::digest::{content_hash, spec_sha256_hex};
use crate::display_options::DisplayOptions;
use crate::file_handler::FileMetadata;
use crate::keyed::{views_of, KeyedList};

verus! {

/// A command as the user interface shows it: its id, its parameters (set
/// later from monitoring data) and how it is displayed.
#[derive(Debug)]
pub struct CommandData {
    pub command_id: String,
    pub command_params: Vec<String>,
    pub display_options: DisplayOptions,
}

impl CommandData {
    /// A command without parameters.
    pub fn new(command_id: String, display_options: DisplayOptions) -> (c: CommandData)
        ensures
            c.command_id == command_id,
            c.command_params@.len() == 0,
            c.display_options == display_options,
    {
        CommandData { command_id, command_params: Vec::new(), display_options }
    }
}

/// Whether edited contents differ from the remote file, known by its digest.
pub open spec fn contents_differ(contents: Seq<u8>, remote_file_hash: Seq<char>) -> bool {
    spec_sha256_hex(contents) != remote_file_hash
}

/// Decides whether an edited file has to be uploaded: `None` when its
/// digest equals the remote file's (it is unchanged), otherwise the new
/// digest, which the file's metadata then records.
pub fn upload_digest(contents: &[u8], remote_file_hash: &str) -> (r: Option<String>)
    ensures
        r is Some <==> contents_differ(contents@, remote_file_hash@),
        r matches Some(h) ==> h@ == spec_sha256_hex(contents@),
{
    let hash = content_hash(contents);
    if crate::enums::str_equals(hash.as_str(), remote_file_hash) {
        None
    } else {
        Some(hash)
    }
}

/// Whether edited contents differ from the remote file, known by its digest.
pub fn has_contents_changed(contents: &[u8], remote_file_hash: &str) -> (r: bool)
    ensures
        r == contents_differ(contents@, remote_file_hash@),
{
    let hash = content_hash(contents);
    !crate::enums::str_equals(hash.as_str(), remote_file_hash)
}

/// A setting, or `default` when it is not set.
pub open spec fn setting_or(settings: Map<Seq<char>, Seq<char>>, key: Seq<char>, default: Seq<char>) -> Seq<char> {
    if settings.contains_key(key) {
        settings[key]
    } else {
        default
    }
}

/// An option and its value, when the setting is set.
pub open spec fn optional_argument(settings: Map<Seq<char>, Seq<char>>, key: Seq<char>, flag: Seq<char>) -> Seq<Seq<char>> {
    if settings.contains_key(key) {
        seq![flag, settings[key]]
    } else {
        Seq::empty()
    }
}

/// The `ssh` command line that opens an interactive session on a host,
/// from its SSH connector settings: port (22 by default), user name and
/// private key when set, and the host's FQDN or, when it has none, its IP
/// address.
pub open spec fn ssh_command_line(settings: Map<Seq<char>, Seq<char>>, fqdn: Seq<char>, ip_address: Seq<char>) -> Seq<Seq<char>> {
    seq!["ssh"@, "-t"@, "-p"@, setting_or(settings, "port"@, "22"@)]
        + optional_argument(settings, "username"@, "-l"@)
        + optional_argument(settings, "private_key_path"@, "-i"@)
        + seq![if fqdn.len() > 0 { fqdn } else { ip_address }]
}

fn push_setting_argument(args: &mut Vec<String>, settings: &KeyedList<String>, key: &str, flag: &str)
    ensures
        views_of(final(args)@) == views_of(old(args)@) + optional_argument(settings@, key@, flag@),
{
    match settings.get(key) {
        Some(value) => {
            let ghost before = args@;
            args.push(flag.to_string());
            args.push(value.clone());
            assert(views_of(args@) =~= views_of(before) + seq![flag@, settings@[key@]]);
        },
        None => {
            assert(views_of(args@) =~= views_of(args@) + Seq::<Seq<char>>::empty());
        },
    }
}

/// Builds the `ssh` command line for an interactive session on a host.
pub fn ssh_command_arguments(settings: &KeyedList<String>, fqdn: &str, ip_address: &str) -> (r: Vec<String>)
    ensures
        views_of(r@) == ssh_command_line(settings@, fqdn@, ip_address@),
{
    let mut args: Vec<String> = Vec::new();
    args.push("ssh".to_string());
    args.push("-t".to_string());
    args.push("-p".to_string());
    let port = match settings.get("port") {
        Some(p) => p.clone(),
        None => "22".to_string(),
    };
    args.push(port);
    let ghost start = views_of(args@);
    assert(start =~= seq!["ssh"@, "-t"@, "-p"@, setting_or(settings@, "port"@, "22"@)]);
    push_setting_argument(&mut args, settings, "username", "-l");
    push_setting_argument(&mut args, settings, "private_key_path", "-i");
    let ghost before = views_of(args@);
    if !fqdn.is_empty() {
        args.push(fqdn.to_string());
    } else {
        args.push(ip_address.to_string());
    }
    assert(views_of(args@) =~= before + seq![if fqdn@.len() > 0 { fqdn@ } else { ip_address@ }]);
    args
}

/// The command line that edits a remote file over SSH: the session's
/// command line, `sudo` when asked for, the remote editor and the file.
pub open spec fn remote_editor_command_line(ssh: Seq<Seq<char>>, sudo: bool, editor: Seq<char>, file_path: Seq<char>) -> Seq<Seq<char>> {
    ssh + (if sudo { seq!["sudo"@] } else { Seq::empty() }) + seq![editor, file_path]
}

/// Builds the command line that edits a remote file over SSH.
pub fn remote_editor_arguments(ssh_arguments: Vec<String>, sudo: bool, editor: &str, file_path: &str) -> (r: Vec<String>)
    ensures
        views_of(r@) == remote_editor_command_line(views_of(ssh_arguments@), sudo, editor@, file_path@),
{
    let mut args = ssh_arguments;
    let ghost start = views_of(args@);
    if sudo {
        args.push("sudo".to_string());
    }
    let ghost middle = views_of(args@);
    assert(middle =~= start + (if sudo { seq!["sudo"@] } else { Seq::<Seq<char>>::empty() }));
    args.push(editor.to_string());
    args.push(file_path.to_string());
    assert(views_of(args@) =~= middle + seq![editor@, file_path@]);
    args
}

/// What uploading an edited file comes to.
#[derive(Debug)]
pub enum UploadPlan {
    /// The local file could not be read; the error as text.
    ReadFailed(String),
    /// The file is the same as the remote one: nothing to upload.
    Unchanged,
    /// Upload it; the metadata records the new digest.
    Upload(FileMetadata),
}

/// The error reported when an edited file has not changed.
pub const FILE_UNCHANGED: &'static str = "File is unchanged";

/// Decides how an edited file is uploaded, given what reading it and its
/// metadata gave. Every upload takes a new invocation id from
/// `last_invocation_id`, whatever the outcome.
pub fn plan_upload(last_invocation_id: &mut u64, read: Result<(FileMetadata, Vec<u8>), String>) -> (r: (u64, UploadPlan))
    requires
        *old(last_invocation_id) < u64::MAX,
    ensures
        *final(last_invocation_id) == *old(last_invocation_id) + 1,
        r.0 == *final(last_invocation_id),
        match read {
            Err(e) => r.1 matches UploadPlan::ReadFailed(t) && t@ == e@,
            Ok((m, contents)) => if contents_differ(contents@, m.remote_file_hash@) {
                r.1 matches UploadPlan::Upload(n) && n.remote_file_hash@ == spec_sha256_hex(contents@)
                    && n.remote_path == m.remote_path && n.local_path == m.local_path && n.download_time
                    == m.download_time && n.owner_uid == m.owner_uid && n.owner_gid == m.owner_gid && n.permissions
                    == m.permissions && n.temporary == m.temporary
            } else {
                r.1 is Unchanged
            },
        },
{
    *last_invocation_id = *last_invocation_id + 1;
    let id = *last_invocation_id;
    match read {
        Err(e) => (id, UploadPlan::ReadFailed(e)),
        Ok((metadata, contents)) => {
            let mut metadata = metadata;
            match upload_digest(contents.as_slice(), metadata.remote_file_hash.as_str()) {
                None => (id, UploadPlan::Unchanged),
                Some(hash) => {
                    metadata.update_hash(hash);
                    (id, UploadPlan::Upload(metadata))
                },
            }
        },
    }
}


/// `sudo` stands in the remote editor's command line only when asked for:
/// without it the line is the session's arguments, the editor and the
/// file; with it, `sudo` comes between the session's arguments and the
/// editor.
pub proof fn law_sudo_only_when_asked(ssh: Seq<Seq<char>>, editor: Seq<char>, file_path: Seq<char>)
    ensures
        remote_editor_command_line(ssh, false, editor, file_path) == ssh.push(editor).push(file_path),
        remote_editor_command_line(ssh, true, editor, file_path) == ssh.push("sudo"@).push(editor).push(file_path),
{
    assert(remote_editor_command_line(ssh, false, editor, file_path) =~= ssh.push(editor).push(file_path));
    assert(remote_editor_command_line(ssh, true, editor, file_path) =~= ssh.push("sudo"@).push(editor).push(file_path));
}

} // verus!
