//! How a command that the user confirmed is carried out, by the action its
//! display options name and the user's preferences: which view opens, with
//! which title, and whether the command is run first.

use vstd::prelude::*;
use crate::configuration::{Preferences, INTERNAL, INTERNAL_SIMPLE};
use crate::display_options::{DisplayOptions, UIAction};
use crate::enums::str_equals;
use crate::file_handler::{path_file_name, spec_path_file_name};
use crate::keyed::views_of;
use crate::text::{append_text, contains_str, occurs_in, replace_text, replaced};

verus! {

/// What the user interface does once a command has an invocation id.
#[derive(Debug)]
pub enum AfterExecution {
    /// Reports the command as executed.
    Executed,
    /// Opens a dialog that follows the output, with this title, and reports
    /// the command as executed.
    FollowOutput { title: String },
    /// Opens a text view with this title.
    TextView { title: String },
    /// Opens a text dialog.
    TextDialog,
    /// Opens a log view with this title, with or without time controls.
    LogView { with_time_controls: bool, title: String },
}

/// How a confirmed command is carried out.
#[derive(Debug)]
pub enum LaunchPlan {
    /// Run the command; once it has an invocation id, do the rest.
    Execute(AfterExecution),
    /// Open the built-in terminal with the command's remote terminal
    /// command, under this title.
    InternalTerminal { title: String },
    /// Open an external terminal for the command.
    ExternalTerminal,
    /// Open the file browser in this directory.
    FileBrowser { directory: String },
    /// Find out which remote file to edit, then follow `editor_plan`.
    EditFile,
}

/// How a remote file is edited once its path is known.
#[derive(Debug)]
pub enum EditorPlan {
    /// Run the remote editor in the built-in terminal, under this header.
    RemoteEditorInTerminal { header: String },
    /// Run the remote editor in an external terminal.
    RemoteEditorInExternalTerminal,
    /// Download the file and open it in the built-in editor, under this
    /// header.
    InternalEditor { header: String },
    /// Download the file, open it in the external editor and upload it
    /// afterwards.
    ExternalEditor,
}

/// The first parameter, or `fallback` when there is none.
pub open spec fn first_or(parameters: Seq<Seq<char>>, fallback: Seq<char>) -> Seq<char> {
    if parameters.len() > 0 {
        parameters[0]
    } else {
        fallback
    }
}

/// `prefix: rest`.
pub open spec fn titled(prefix: Seq<char>, rest: Seq<char>) -> Seq<char> {
    prefix + ": "@ + rest
}

/// Title of the output dialog: the tab title, or `command: first parameter`.
pub open spec fn output_title(tab_title: Seq<char>, command_id: Seq<char>, parameters: Seq<Seq<char>>) -> Seq<char> {
    if tab_title.len() == 0 {
        titled(command_id, first_or(parameters, Seq::empty()))
    } else {
        tab_title
    }
}

/// The view of a plan: which variant, with the texts it carries.
pub enum LaunchPlanView {
    Executed,
    FollowOutput(Seq<char>),
    TextView(Seq<char>),
    TextDialog,
    LogView(bool, Seq<char>),
    InternalTerminal(Seq<char>),
    ExternalTerminal,
    FileBrowser(Seq<char>),
    EditFile,
}

impl View for LaunchPlan {
    type V = LaunchPlanView;

    open spec fn view(&self) -> LaunchPlanView {
        match self {
            LaunchPlan::Execute(AfterExecution::Executed) => LaunchPlanView::Executed,
            LaunchPlan::Execute(AfterExecution::FollowOutput { title }) => LaunchPlanView::FollowOutput(title@),
            LaunchPlan::Execute(AfterExecution::TextView { title }) => LaunchPlanView::TextView(title@),
            LaunchPlan::Execute(AfterExecution::TextDialog) => LaunchPlanView::TextDialog,
            LaunchPlan::Execute(AfterExecution::LogView { with_time_controls, title }) => LaunchPlanView::LogView(
                *with_time_controls,
                title@,
            ),
            LaunchPlan::InternalTerminal { title } => LaunchPlanView::InternalTerminal(title@),
            LaunchPlan::ExternalTerminal => LaunchPlanView::ExternalTerminal,
            LaunchPlan::FileBrowser { directory } => LaunchPlanView::FileBrowser(directory@),
            LaunchPlan::EditFile => LaunchPlanView::EditFile,
        }
    }
}

/// The plan for a confirmed command with this action. A text view is
/// titled by the first parameter, which it needs; commands whose action
/// asks for no view (including the details dialog, shown when the result
/// arrives) are only run.
pub open spec fn plan_for(
    action: UIAction,
    tab_title: Seq<char>,
    terminal: Seq<char>,
    command_id: Seq<char>,
    parameters: Seq<Seq<char>>,
) -> LaunchPlanView {
    match action {
        UIAction::NoAction => LaunchPlanView::Executed,
        UIAction::DetailsDialog => LaunchPlanView::Executed,
        UIAction::FollowOutput => LaunchPlanView::FollowOutput(output_title(tab_title, command_id, parameters)),
        UIAction::TextView => LaunchPlanView::TextView(titled(command_id, parameters[0])),
        UIAction::TextDialog => LaunchPlanView::TextDialog,
        UIAction::LogView => LaunchPlanView::LogView(false, tab_title),
        UIAction::LogViewWithTimeControls => LaunchPlanView::LogView(true, tab_title),
        UIAction::Terminal => if terminal == INTERNAL@ {
            LaunchPlanView::InternalTerminal(tab_title)
        } else {
            LaunchPlanView::ExternalTerminal
        },
        UIAction::FileBrowser => LaunchPlanView::FileBrowser(first_or(parameters, "/"@)),
        UIAction::TextEditor => LaunchPlanView::EditFile,
    }
}

fn titled_text(prefix: &str, rest: &str) -> (r: String)
    ensures
        r@ == titled(prefix@, rest@),
{
    let mut title = prefix.to_string();
    append_text(&mut title, ": ");
    append_text(&mut title, rest);
    title
}

/// Decides how a confirmed command is carried out.
pub fn launch_plan(display_options: &DisplayOptions, terminal: &str, command_id: &str, parameters: &Vec<String>) -> (r: LaunchPlan)
    requires
        display_options.action == UIAction::TextView ==> parameters@.len() > 0,
    ensures
        r@ == plan_for(display_options.action, display_options.tab_title@, terminal@, command_id@, views_of(parameters@)),
{
    let tab_title = &display_options.tab_title;
    proof {
        if parameters@.len() > 0 {
            assert(views_of(parameters@)[0] == parameters@[0]@);
        }
    }
    match display_options.action {
        UIAction::NoAction => LaunchPlan::Execute(AfterExecution::Executed),
        UIAction::DetailsDialog => LaunchPlan::Execute(AfterExecution::Executed),
        UIAction::FollowOutput => {
            let title = if tab_title.as_str().is_empty() {
                if parameters.len() > 0 {
                    titled_text(command_id, parameters[0].as_str())
                } else {
                    let t = titled_text(command_id, "");
                    proof {
                        reveal_strlit("");
                    }
                    t
                }
            } else {
                tab_title.clone()
            };
            LaunchPlan::Execute(AfterExecution::FollowOutput { title })
        },
        UIAction::TextView => {
            let title = titled_text(command_id, parameters[0].as_str());
            LaunchPlan::Execute(AfterExecution::TextView { title })
        },
        UIAction::TextDialog => LaunchPlan::Execute(AfterExecution::TextDialog),
        UIAction::LogView => LaunchPlan::Execute(
            AfterExecution::LogView { with_time_controls: false, title: tab_title.clone() },
        ),
        UIAction::LogViewWithTimeControls => LaunchPlan::Execute(
            AfterExecution::LogView { with_time_controls: true, title: tab_title.clone() },
        ),
        UIAction::Terminal => {
            if str_equals(terminal, INTERNAL) {
                LaunchPlan::InternalTerminal { title: tab_title.clone() }
            } else {
                LaunchPlan::ExternalTerminal
            }
        },
        UIAction::FileBrowser => {
            let directory = if parameters.len() > 0 {
                parameters[0].clone()
            } else {
                "/".to_string()
            };
            LaunchPlan::FileBrowser { directory }
        },
        UIAction::TextEditor => LaunchPlan::EditFile,
    }
}

/// Header of an editor view: the tab title with `%s` standing for the
/// file's name (or followed by `: name` when it has no `%s`), or the
/// command id when there is no tab title. The name is the path's last
/// component, or the whole path when it has none.
pub open spec fn editor_header(tab_title: Seq<char>, command_id: Seq<char>, file_path: Seq<char>) -> Seq<char> {
    let name = match spec_path_file_name(file_path) {
        Some(n) => n,
        None => file_path,
    };
    if tab_title.len() == 0 {
        command_id
    } else if occurs_in(tab_title, "%s"@) {
        replaced(tab_title, "%s"@, name)
    } else {
        titled(tab_title, name)
    }
}

/// The header shown above an editor for `file_path`.
pub fn editor_header_text(tab_title: &str, command_id: &str, file_path: &str) -> (r: String)
    ensures
        r@ == editor_header(tab_title@, command_id@, file_path@),
{
    let name = match path_file_name(file_path) {
        Some(n) => n,
        None => file_path.to_string(),
    };
    if tab_title.is_empty() {
        command_id.to_string()
    } else if contains_str(tab_title, "%s") {
        replace_text(tab_title, "%s", name.as_str())
    } else {
        titled_text(tab_title, name.as_str())
    }
}

/// The view of an editor plan.
pub enum EditorPlanView {
    RemoteEditorInTerminal(Seq<char>),
    RemoteEditorInExternalTerminal,
    InternalEditor(Seq<char>),
    ExternalEditor,
}

impl View for EditorPlan {
    type V = EditorPlanView;

    open spec fn view(&self) -> EditorPlanView {
        match self {
            EditorPlan::RemoteEditorInTerminal { header } => EditorPlanView::RemoteEditorInTerminal(header@),
            EditorPlan::RemoteEditorInExternalTerminal => EditorPlanView::RemoteEditorInExternalTerminal,
            EditorPlan::InternalEditor { header } => EditorPlanView::InternalEditor(header@),
            EditorPlan::ExternalEditor => EditorPlanView::ExternalEditor,
        }
    }
}

/// How a remote file is edited: with the remote editor (in the built-in
/// terminal when that is the terminal preference) or locally (in the
/// built-in editors when one of them is the editor preference).
pub open spec fn editor_plan_for(
    use_remote_editor: bool,
    terminal: Seq<char>,
    text_editor: Seq<char>,
    header: Seq<char>,
) -> EditorPlanView {
    if use_remote_editor {
        if terminal == INTERNAL@ {
            EditorPlanView::RemoteEditorInTerminal(header)
        } else {
            EditorPlanView::RemoteEditorInExternalTerminal
        }
    } else if text_editor == INTERNAL@ || text_editor == INTERNAL_SIMPLE@ {
        EditorPlanView::InternalEditor(header)
    } else {
        EditorPlanView::ExternalEditor
    }
}

/// Decides how the remote file at `remote_file_path` is edited.
pub fn editor_plan(preferences: &Preferences, display_options: &DisplayOptions, command_id: &str, remote_file_path: &str) -> (r: EditorPlan)
    ensures
        r@ == editor_plan_for(
            preferences.use_remote_editor,
            preferences.terminal@,
            preferences.text_editor@,
            editor_header(display_options.tab_title@, command_id@, remote_file_path@),
        ),
{
    if preferences.use_remote_editor {
        if str_equals(preferences.terminal.as_str(), INTERNAL) {
            let header = editor_header_text(display_options.tab_title.as_str(), command_id, remote_file_path);
            EditorPlan::RemoteEditorInTerminal { header }
        } else {
            EditorPlan::RemoteEditorInExternalTerminal
        }
    } else if str_equals(preferences.text_editor.as_str(), INTERNAL) || str_equals(
        preferences.text_editor.as_str(),
        INTERNAL_SIMPLE,
    ) {
        let header = editor_header_text(display_options.tab_title.as_str(), command_id, remote_file_path);
        EditorPlan::InternalEditor { header }
    } else {
        EditorPlan::ExternalEditor
    }
}

} // verus!
