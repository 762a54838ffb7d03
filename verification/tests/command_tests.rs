use lightkeeper::command_handler::{
    has_contents_changed, plan_upload, remote_editor_arguments, ssh_command_arguments, upload_digest, CommandData, UploadPlan,
    FILE_UNCHANGED,
};
use lightkeeper::file_handler::FileMetadata;
use lightkeeper::command_launch::{editor_header_text, editor_plan, launch_plan, AfterExecution, EditorPlan, LaunchPlan};
use lightkeeper::configuration::Preferences;
use lightkeeper::display_options::{DisplayOptions, UIAction};
use lightkeeper::keyed::KeyedList;

fn options(action: UIAction, tab_title: &str) -> DisplayOptions {
    let mut d = DisplayOptions::default();
    d.action = action;
    d.tab_title = tab_title.to_string();
    d
}

fn preferences(use_remote_editor: bool, terminal: &str, text_editor: &str) -> Preferences {
    Preferences {
        use_sandbox_mode: false,
        refresh_hosts_on_start: false,
        use_remote_editor,
        sudo_remote_editor: false,
        remote_text_editor: String::from("vim"),
        text_editor: text_editor.to_string(),
        terminal: terminal.to_string(),
        terminal_args: Vec::new(),
        close_to_tray: false,
        show_monitor_notifications: false,
        show_charts: false,
    }
}

#[test]
fn command_data_has_no_parameters() {
    let c = CommandData::new(String::from("docker-restart"), DisplayOptions::default());
    assert_eq!(c.command_id, "docker-restart");
    assert!(c.command_params.is_empty());
}

#[test]
fn unchanged_file_is_not_uploaded() {
    let known = "2cf24dba5fb0a30e26e83b2ac5b9e29e1b161e5c1fa7425e73043362938b9824";
    assert_eq!(upload_digest(b"hello", known), None);
    assert!(!has_contents_changed(b"hello", known));
    assert_eq!(
        upload_digest(&[1, 2, 3], known),
        Some(String::from("039058c6f2c0cb492c533b0a4d14ef77cc0f78abccced5287d84a1a2011cfb81"))
    );
    assert!(has_contents_changed(&[1, 2, 3], known));
}

#[test]
fn ssh_command_line_from_settings() {
    let mut settings: KeyedList<String> = KeyedList::new();
    assert_eq!(ssh_command_arguments(&settings, "", "10.0.0.5"), vec!["ssh", "-t", "-p", "22", "10.0.0.5"]);
    settings.insert(String::from("port"), String::from("2222"));
    settings.insert(String::from("username"), String::from("admin"));
    settings.insert(String::from("private_key_path"), String::from("/k/id"));
    let args = ssh_command_arguments(&settings, "web.example.com", "10.0.0.5");
    assert_eq!(args, vec!["ssh", "-t", "-p", "2222", "-l", "admin", "-i", "/k/id", "web.example.com"]);
    let edit = remote_editor_arguments(args, true, "vim", "/etc/hosts");
    assert_eq!(edit[9..].to_vec(), vec!["sudo", "vim", "/etc/hosts"]);
}

#[test]
fn launch_plans_by_action() {
    let none = Vec::new();
    let params = vec![String::from("nginx")];
    assert!(matches!(launch_plan(&options(UIAction::NoAction, ""), "xterm", "c", &none), LaunchPlan::Execute(AfterExecution::Executed)));
    match launch_plan(&options(UIAction::FollowOutput, ""), "xterm", "docker-pull", &params) {
        LaunchPlan::Execute(AfterExecution::FollowOutput { title }) => assert_eq!(title, "docker-pull: nginx"),
        _ => panic!("wrong plan"),
    }
    match launch_plan(&options(UIAction::FollowOutput, ""), "xterm", "update", &none) {
        LaunchPlan::Execute(AfterExecution::FollowOutput { title }) => assert_eq!(title, "update: "),
        _ => panic!("wrong plan"),
    }
    match launch_plan(&options(UIAction::FollowOutput, "Updating"), "xterm", "update", &params) {
        LaunchPlan::Execute(AfterExecution::FollowOutput { title }) => assert_eq!(title, "Updating"),
        _ => panic!("wrong plan"),
    }
    match launch_plan(&options(UIAction::TextView, ""), "xterm", "inspect", &params) {
        LaunchPlan::Execute(AfterExecution::TextView { title }) => assert_eq!(title, "inspect: nginx"),
        _ => panic!("wrong plan"),
    }
    match launch_plan(&options(UIAction::LogViewWithTimeControls, "Logs"), "xterm", "logs", &params) {
        LaunchPlan::Execute(AfterExecution::LogView { with_time_controls, title }) => {
            assert!(with_time_controls);
            assert_eq!(title, "Logs");
        }
        _ => panic!("wrong plan"),
    }
    assert!(matches!(launch_plan(&options(UIAction::Terminal, "Shell"), "xterm", "sh", &none), LaunchPlan::ExternalTerminal));
    match launch_plan(&options(UIAction::Terminal, "Shell"), "internal", "sh", &none) {
        LaunchPlan::InternalTerminal { title } => assert_eq!(title, "Shell"),
        _ => panic!("wrong plan"),
    }
    match launch_plan(&options(UIAction::FileBrowser, ""), "xterm", "files", &none) {
        LaunchPlan::FileBrowser { directory } => assert_eq!(directory, "/"),
        _ => panic!("wrong plan"),
    }
    assert!(matches!(launch_plan(&options(UIAction::TextEditor, ""), "xterm", "edit", &none), LaunchPlan::EditFile));
}

#[test]
fn editor_headers() {
    assert_eq!(editor_header_text("", "edit-file", "/etc/hosts"), "edit-file");
    assert_eq!(editor_header_text("Editing %s", "e", "/etc/nginx/nginx.conf"), "Editing nginx.conf");
    assert_eq!(editor_header_text("Edit", "e", "/etc/hosts"), "Edit: hosts");
    assert_eq!(editor_header_text("Edit", "e", "/"), "Edit: /");
}

#[test]
fn editor_plans() {
    let d = options(UIAction::TextEditor, "Edit");
    match editor_plan(&preferences(true, "internal", "kate"), &d, "e", "/etc/hosts") {
        EditorPlan::RemoteEditorInTerminal { header } => assert_eq!(header, "Edit: hosts"),
        _ => panic!("wrong plan"),
    }
    assert!(matches!(editor_plan(&preferences(true, "xterm", "kate"), &d, "e", "/etc/hosts"), EditorPlan::RemoteEditorInExternalTerminal));
    match editor_plan(&preferences(false, "xterm", "internal-simple"), &d, "e", "/etc/hosts") {
        EditorPlan::InternalEditor { header } => assert_eq!(header, "Edit: hosts"),
        _ => panic!("wrong plan"),
    }
    assert!(matches!(editor_plan(&preferences(false, "xterm", "kate"), &d, "e", "/etc/hosts"), EditorPlan::ExternalEditor));
}

fn upload_metadata(hash: &str) -> FileMetadata {
    FileMetadata {
        download_time: 5,
        local_path: Some(String::from("/cache/web/hosts_x")),
        remote_path: String::from("/etc/hosts"),
        remote_file_hash: hash.to_string(),
        owner_uid: 1,
        owner_gid: 2,
        permissions: 0o600,
        temporary: true,
    }
}

const HELLO_SHA256: &str = "2cf24dba5fb0a30e26e83b2ac5b9e29e1b161e5c1fa7425e73043362938b9824";

#[test]
fn upload_plans() {
    let mut last = 9u64;
    let (id, plan) = plan_upload(&mut last, Ok((upload_metadata(HELLO_SHA256), b"hello".to_vec())));
    assert_eq!(id, 10);
    assert!(matches!(plan, UploadPlan::Unchanged));
    assert_eq!(FILE_UNCHANGED, "File is unchanged");

    let (id, plan) = plan_upload(&mut last, Ok((upload_metadata("old"), b"hello".to_vec())));
    assert_eq!(id, 11);
    match plan {
        UploadPlan::Upload(m) => {
            assert_eq!(m.remote_file_hash, HELLO_SHA256);
            assert_eq!(m.remote_path, "/etc/hosts");
            assert!(m.temporary);
        },
        _ => panic!("expected upload"),
    }

    let (id, plan) = plan_upload(&mut last, Err(String::from("No such file")));
    assert_eq!(id, 12);
    match plan {
        UploadPlan::ReadFailed(e) => assert_eq!(e, "No such file"),
        _ => panic!("expected failure"),
    }
}
