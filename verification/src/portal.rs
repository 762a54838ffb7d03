//! Requests to the desktop portal (file chooser, open file): the names the
//! portal expects and what its answers mean for the user interface.

use vstd::prelude::*;
use crate::text::{append_text, replace_text, replaced};

verus! {

/// `s` without any `c` at its start.
pub open spec fn without_leading(s: Seq<char>, c: char) -> Seq<char>
    decreases s.len(),
{
    if s.len() > 0 && s[0] == c {
        without_leading(s.drop_first(), c)
    } else {
        s
    }
}

/// `s` with every `from` written as `to`.
pub open spec fn with_char_replaced(s: Seq<char>, from: char, to: char) -> Seq<char> {
    s.map_values(|c: char| if c == from { to } else { c })
}

/// The sender part of a portal request's object path: the connection's
/// unique bus name without its leading `:`, with `.` written as `_`.
pub open spec fn sender_id_of(unique_name: Seq<char>) -> Seq<char> {
    with_char_replaced(without_leading(unique_name, ':'), '.', '_')
}

/// Forms the sender part of request object paths from a unique bus name.
pub fn portal_sender_id(unique_name: &str) -> (r: String)
    ensures
        r@ == sender_id_of(unique_name@),
{
    let chars = crate::text::chars_of(unique_name);
    let mut start: usize = 0;
    assert(chars@.skip(0) =~= unique_name@);
    while start < chars.len() && chars[start] == ':'
        invariant
            start <= chars.len(),
            chars@ == unique_name@,
            without_leading(chars@.skip(start as int), ':') == without_leading(unique_name@, ':'),
        decreases chars.len() - start,
    {
        assert(chars@.skip(start as int).drop_first() =~= chars@.skip(start + 1));
        start = start + 1;
    }
    let ghost rest = chars@.skip(start as int);
    assert(without_leading(rest, ':') == rest);
    let mut id = String::new();
    let mut i: usize = start;
    while i < chars.len()
        invariant
            start <= i <= chars.len(),
            chars@ == unique_name@,
            rest == chars@.skip(start as int),
            id@ == with_char_replaced(chars@.subrange(start as int, i as int), '.', '_'),
        decreases chars.len() - i,
    {
        let c = if chars[i] == '.' { '_' } else { chars[i] };
        crate::text::push_char(&mut id, c);
        assert(id@ =~= with_char_replaced(chars@.subrange(start as int, i + 1), '.', '_'));
        i = i + 1;
    }
    assert(chars@.subrange(start as int, chars.len() as int) =~= rest);
    id
}

/// Object path of the portal's answer to the request `token`.
pub open spec fn request_path_of(sender_id: Seq<char>, token: Seq<char>) -> Seq<char> {
    "/org/freedesktop/portal/desktop/request/"@ + sender_id + "/"@ + token
}

/// Forms the object path on which the portal answers request `token`.
pub fn portal_request_path(sender_id: &str, token: &str) -> (r: String)
    ensures
        r@ == request_path_of(sender_id@, token@),
{
    let mut path = "/org/freedesktop/portal/desktop/request/".to_string();
    append_text(&mut path, sender_id);
    append_text(&mut path, "/");
    append_text(&mut path, token);
    path
}

/// What the user interface does with a portal answer.
#[derive(Debug)]
pub enum PortalOutcome {
    /// The user chose this file for the request with this token.
    FileChosen { token: String, path: String },
    /// The file of the request with this token was opened.
    FileOpened { token: String },
    /// Show this error.
    Failed(String),
    /// Nothing (the user cancelled).
    Nothing,
}

/// The view of an outcome.
pub enum PortalOutcomeView {
    FileChosen(Seq<char>, Seq<char>),
    FileOpened(Seq<char>),
    Failed(Seq<char>),
    Nothing,
}

impl View for PortalOutcome {
    type V = PortalOutcomeView;

    open spec fn view(&self) -> PortalOutcomeView {
        match self {
            PortalOutcome::FileChosen { token, path } => PortalOutcomeView::FileChosen(token@, path@),
            PortalOutcome::FileOpened { token } => PortalOutcomeView::FileOpened(token@),
            PortalOutcome::Failed(m) => PortalOutcomeView::Failed(m@),
            PortalOutcome::Nothing => PortalOutcomeView::Nothing,
        }
    }
}

/// The answer to a file chooser request: on success (status 0) the first
/// chosen file's URI without `file://`; status 2 is an error; any other
/// status (a cancel) does nothing.
pub open spec fn file_chooser_outcome_of(status: u32, token: Seq<char>, uris: Seq<Seq<char>>) -> PortalOutcomeView {
    if status == 0 {
        PortalOutcomeView::FileChosen(token, replaced(uris[0], "file://"@, Seq::empty()))
    } else if status == 2 {
        PortalOutcomeView::Failed("Unknown error occurred while choosing file"@)
    } else {
        PortalOutcomeView::Nothing
    }
}

/// Interprets the answer to a file chooser request. A successful answer
/// names at least one file.
pub fn file_chooser_outcome(status: u32, token: &str, file_uris: &Vec<String>) -> (r: PortalOutcome)
    requires
        status == 0 ==> file_uris@.len() > 0,
    ensures
        r@ == file_chooser_outcome_of(status, token@, file_uris@.map_values(|u: String| u@)),
{
    if status == 0 {
        let path = replace_text(file_uris[0].as_str(), "file://", "");
        proof {
            reveal_strlit("");
            assert(""@ =~= Seq::<char>::empty());
            assert(file_uris@.map_values(|u: String| u@)[0] == file_uris@[0]@);
        }
        PortalOutcome::FileChosen { token: token.to_string(), path }
    } else if status == 2 {
        PortalOutcome::Failed("Unknown error occurred while choosing file".to_string())
    } else {
        PortalOutcome::Nothing
    }
}

/// The answer to an open-file request: opened on status 0, an error on
/// status 2, nothing otherwise.
pub open spec fn open_file_outcome_of(status: u32, token: Seq<char>) -> PortalOutcomeView {
    if status == 0 {
        PortalOutcomeView::FileOpened(token)
    } else if status == 2 {
        PortalOutcomeView::Failed("Unknown error occurred while opening file"@)
    } else {
        PortalOutcomeView::Nothing
    }
}

/// Interprets the answer to an open-file request.
pub fn open_file_outcome(status: u32, token: &str) -> (r: PortalOutcome)
    ensures
        r@ == open_file_outcome_of(status, token@),
{
    if status == 0 {
        PortalOutcome::FileOpened { token: token.to_string() }
    } else if status == 2 {
        PortalOutcome::Failed("Unknown error occurred while opening file".to_string())
    } else {
        PortalOutcome::Nothing
    }
}


/// The answer to a file chooser request made through the desktop portal
/// model: on success (status 0) the first chosen file's URI without
/// `file://`; any other status does nothing.
pub open spec fn desktop_chooser_outcome_of(status: u32, token: Seq<char>, uris: Seq<Seq<char>>) -> PortalOutcomeView {
    if status == 0 {
        PortalOutcomeView::FileChosen(token, replaced(uris[0], "file://"@, Seq::empty()))
    } else {
        PortalOutcomeView::Nothing
    }
}

/// Interprets the answer to a file chooser request of the desktop portal
/// model, which reports no error. A successful answer names at least one
/// file.
pub fn desktop_chooser_outcome(status: u32, token: &str, file_uris: &Vec<String>) -> (r: PortalOutcome)
    requires
        status == 0 ==> file_uris@.len() > 0,
    ensures
        r@ == desktop_chooser_outcome_of(status, token@, file_uris@.map_values(|u: String| u@)),
{
    if status == 0 {
        file_chooser_outcome(status, token, file_uris)
    } else {
        PortalOutcome::Nothing
    }
}

} // verus!
