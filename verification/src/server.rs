//! The decisions of the language server. Each request is a course of events:
//! the server asks for something, is told what came of it, and decides what
//! follows.

use serde_json::Value;
use vstd::prelude::*;

use crate::clock::{clock_text, current_timestamp};
use crate::edits::{
    build_header_workspace_edit, full_document_edit, is_full_document_edit, is_signed_header_edit,
    no_file_name_message, no_file_name_text, positions_fit, TextEdit, WorkspaceEdit,
};
use crate::formatter::{formatter_error_text, FormatterError};
use crate::header::{render_document_with_header, rendered};
use crate::json::{argument_text, normal_uri, parse_command_uri};
use crate::settings::{author_domain, author_login, mail_address, AuthorIdentity, HeaderSettings};
use crate::text::{joined, joined3, same_text, str_view, views};
use crate::uri::{
    c_document, file_name_from_uri, is_supported_c_document, uri_file_name, DocumentUri,
};

verus! {

pub const SERVER_NAME: &'static str = "42 Tools LSP";
pub const SERVER_VERSION: &'static str = "0.1.4";
pub const INSERT_HEADER_COMMAND: &'static str = "42tools.insertHeader";
pub const HEADER_CODE_ACTION_KIND: &'static str = "source.42tools.header";
pub const HEADER_ACTION_TITLE: &'static str = "42 Tools: Insert or Update Header";

/// How an edit of a header is called in messages.
pub const HEADER_EDIT_CONTEXT: &'static str = "42 header edit";

/// How the edits of a saved document are called in messages.
pub const SAVE_EDITS_CONTEXT: &'static str = "42 Tools save pipeline edits";

// ---------------------------------------------------------------------------
// What the server offers
// ---------------------------------------------------------------------------

/// What the server tells of itself.
#[derive(Debug, Clone, PartialEq, Eq)]
pub struct ServerDescription {
    pub name: String,
    pub version: String,
    /// It is told when documents are opened and closed.
    pub open_close: bool,
    /// It is sent the whole text when a document changes.
    pub full_text_sync: bool,
    /// It is told before a document is saved.
    pub will_save: bool,
    /// It may edit a document before it is saved.
    pub will_save_wait_until: bool,
    /// It is told when a document was saved.
    pub save: bool,
    /// It formats documents.
    pub formatting: bool,
    /// The kinds of code actions that it offers.
    pub code_action_kinds: Vec<String>,
    /// It completes code actions on demand.
    pub resolves_code_actions: bool,
    /// The commands that it runs.
    pub commands: Vec<String>,
}

/// Tells what the server offers.
pub fn initialize() -> (description: ServerDescription)
    ensures
        description.name@ == SERVER_NAME@,
        description.version@ == SERVER_VERSION@,
        description.open_close,
        description.full_text_sync,
        description.will_save,
        description.will_save_wait_until,
        description.save,
        description.formatting,
        views(description.code_action_kinds@) == seq![HEADER_CODE_ACTION_KIND@],
        !description.resolves_code_actions,
        views(description.commands@) == seq![INSERT_HEADER_COMMAND@],
{
    let code_action_kinds = one_text(HEADER_CODE_ACTION_KIND);
    let commands = one_text(INSERT_HEADER_COMMAND);
    ServerDescription {
        name: SERVER_NAME.to_string(),
        version: SERVER_VERSION.to_string(),
        open_close: true,
        full_text_sync: true,
        will_save: true,
        will_save_wait_until: true,
        save: true,
        formatting: true,
        code_action_kinds,
        resolves_code_actions: false,
        commands,
    }
}

/// A list of one text.
fn one_text(text: &str) -> (texts: Vec<String>)
    ensures
        views(texts@) == seq![text@],
{
    let mut texts: Vec<String> = Vec::new();
    texts.push(text.to_string());
    assert(views(texts@) =~= seq![text@]);
    texts
}

/// A list of one owned text.
fn one_string(text: String) -> (texts: Vec<String>)
    ensures
        views(texts@) == seq![text@],
{
    let mut texts: Vec<String> = Vec::new();
    texts.push(text);
    assert(views(texts@) =~= seq![text@]);
    texts
}

/// No text.
fn no_texts() -> (texts: Vec<String>)
    ensures
        views(texts@) == Seq::<Seq<char>>::empty(),
{
    let texts: Vec<String> = Vec::new();
    assert(views(texts@) =~= Seq::<Seq<char>>::empty());
    texts
}

// ---------------------------------------------------------------------------
// Saving
// ---------------------------------------------------------------------------

/// What has happened while a document is saved.
#[derive(Debug)]
pub enum SaveEvent {
    /// The document is to be saved.
    Requested,
    /// Its text was read, or could not be.
    Read(Result<String, String>),
    /// The formatter was run on its text.
    Formatted { source: String, outcome: Result<String, FormatterError> },
}

/// What to do next while a document is saved.
#[derive(Debug)]
pub enum SaveAction {
    /// Read its text.
    Read,
    /// Run the formatter on its text.
    Format(String),
    /// Answer with these edits.
    Finish(Option<Vec<TextEdit>>),
}

/// What to warn of, and what to do next.
#[derive(Debug)]
pub struct SaveStep {
    pub warnings: Vec<String>,
    pub action: SaveAction,
}

impl SaveStep {
    /// Nothing is warned of, and nothing is edited.
    pub open spec fn ends_quietly(self) -> bool {
        &&& views(self.warnings@) == Seq::<Seq<char>>::empty()
        &&& self.action is Finish
        &&& self.action->Finish_0 is None
    }

    /// The document is given this text, by one edit of the whole; by none if
    /// it is what the document holds.
    pub open spec fn leaves(self, source: Seq<char>, output: Seq<char>) -> bool {
        &&& self.action is Finish
        &&& if output == source {
            self.action->Finish_0 is None
        } else {
            &&& self.action->Finish_0 is Some
            &&& self.action->Finish_0->0@.len() == 1
            &&& is_full_document_edit(self.action->Finish_0->0@[0], source, output)
        }
    }
}

/// The text that the formatter leaves: what it gave, or the document as it was
/// where it failed.
pub open spec fn formatted_text(
    source: Seq<char>,
    outcome: Result<String, FormatterError>,
) -> Seq<char> {
    match outcome {
        Ok(text) => text@,
        Err(_) => source,
    }
}

/// What a run of the formatter is warned of.
pub open spec fn formatter_warnings(outcome: Result<String, FormatterError>) -> Seq<Seq<char>> {
    match outcome {
        Ok(_) => Seq::empty(),
        Err(error) => seq![formatter_error_text(error@)],
    }
}

/// The end of saving a document: its formatted text gets a header that is up
/// to date, if the file has a name.
pub open spec fn is_saved(
    step: SaveStep,
    uri: Seq<char>,
    file_name: Option<Seq<char>>,
    source: Seq<char>,
    outcome: Result<String, FormatterError>,
    login: Seq<char>,
    email: Seq<char>,
    timestamp: Seq<char>,
) -> bool {
    let formatted = formatted_text(source, outcome);
    match file_name {
        Some(name) => {
            &&& views(step.warnings@) == formatter_warnings(outcome)
            &&& step.leaves(source, rendered(formatted, name, login, email, timestamp))
        },
        None => {
            &&& views(step.warnings@) == formatter_warnings(outcome).push(no_file_name_text(uri))
            &&& step.leaves(source, formatted)
        },
    }
}

/// Ends the saving of a document, given its file name and the time.
pub fn finish_save(
    uri: &DocumentUri,
    file_name: Option<&str>,
    source: &str,
    outcome: Result<String, FormatterError>,
    identity: &AuthorIdentity,
    timestamp: &str,
) -> (step: SaveStep)
    requires
        positions_fit(source@),
    ensures
        is_saved(
            step,
            uri.text@,
            str_view(file_name),
            source@,
            outcome,
            identity.login@,
            identity.email@,
            timestamp@,
        ),
{
    let mut warnings = no_texts();
    let ghost warned = formatter_warnings(outcome);
    let ghost formatted_view = formatted_text(source@, outcome);
    let formatted = match outcome {
        Ok(text) => text,
        Err(error) => {
            warnings.push(error.message());
            source.to_string()
        },
    };
    assert(views(warnings@) =~= warned);
    assert(formatted@ == formatted_view);
    let output = match file_name {
        Some(name) => {
            match render_document_with_header(formatted.as_str(), name, identity, timestamp) {
                Ok(output) => output,
                Err(error) => {
                    warnings.push(error);
                    formatted
                },
            }
        },
        None => {
            warnings.push(no_file_name_message(uri));
            assert(views(warnings@) =~= warned.push(no_file_name_text(uri.text@)));
            formatted
        },
    };
    let action = if same_text(output.as_str(), source) {
        SaveAction::Finish(None)
    } else {
        let mut edits: Vec<TextEdit> = Vec::new();
        edits.push(full_document_edit(source, output));
        SaveAction::Finish(Some(edits))
    };
    SaveStep { warnings, action }
}

/// What follows each event while a document is saved. Only C files are touched;
/// one that cannot be read is left alone.
pub open spec fn is_save_step(
    step: SaveStep,
    uri: Seq<char>,
    settings: HeaderSettings,
    user: Option<Seq<char>>,
    username: Option<Seq<char>>,
    event: SaveEvent,
) -> bool {
    match event {
        SaveEvent::Requested => if c_document(uri) {
            views(step.warnings@) == Seq::<Seq<char>>::empty() && step.action is Read
        } else {
            step.ends_quietly()
        },
        SaveEvent::Read(Ok(text)) => views(step.warnings@) == Seq::<Seq<char>>::empty()
            && step.action == SaveAction::Format(text),
        SaveEvent::Read(Err(error)) => views(step.warnings@) == seq![error@]
            && step.action is Finish && step.action->Finish_0 is None,
        SaveEvent::Formatted { source, outcome } => is_signed_save(
            step,
            uri,
            source@,
            outcome,
            settings,
            user,
            username,
        ),
    }
}

/// The end of saving a document, signed as the settings and the environment
/// say, at some time that the clock may show.
pub open spec fn is_signed_save(
    step: SaveStep,
    uri: Seq<char>,
    source: Seq<char>,
    outcome: Result<String, FormatterError>,
    settings: HeaderSettings,
    user: Option<Seq<char>>,
    username: Option<Seq<char>>,
) -> bool {
    let login = author_login(settings, user, username);
    exists|timestamp: Seq<char>|
        clock_text(timestamp) && #[trigger] is_saved(
            step,
            uri,
            uri_file_name(uri),
            source,
            outcome,
            login,
            mail_address(login, author_domain(settings)),
            timestamp,
        )
}

/// Decides what follows while a document is saved.
pub fn save_pipeline_edits(
    uri: &DocumentUri,
    header_settings: &HeaderSettings,
    user: Option<&str>,
    username: Option<&str>,
    event: SaveEvent,
) -> (step: SaveStep)
    requires
        event matches SaveEvent::Formatted { source, .. } ==> positions_fit(source@),
    ensures
        is_save_step(
            step,
            uri.text@,
            *header_settings,
            str_view(user),
            str_view(username),
            event,
        ),
{
    match event {
        SaveEvent::Requested => {
            let action = if is_supported_c_document(uri) {
                SaveAction::Read
            } else {
                SaveAction::Finish(None)
            };
            SaveStep { warnings: no_texts(), action }
        },
        SaveEvent::Read(Ok(text)) => SaveStep {
            warnings: no_texts(),
            action: SaveAction::Format(text),
        },
        SaveEvent::Read(Err(error)) => SaveStep {
            warnings: one_string(error),
            action: SaveAction::Finish(None),
        },
        SaveEvent::Formatted { source, outcome } => {
            let file_name = file_name_from_uri(uri);
            let name = match &file_name {
                Some(name) => Some(name.as_str()),
                None => None,
            };
            let identity = AuthorIdentity::from_settings(header_settings, user, username);
            let timestamp = current_timestamp();
            finish_save(uri, name, source.as_str(), outcome, &identity, timestamp.as_str())
        },
    }
}

// ---------------------------------------------------------------------------
// Code actions
// ---------------------------------------------------------------------------

/// A code action that edits a header.
#[derive(Debug, Clone, PartialEq, Eq)]
pub struct HeaderCodeAction {
    pub title: String,
    pub kind: String,
    pub edit: WorkspaceEdit,
    pub is_preferred: bool,
}

/// What has happened since code actions were asked for.
#[derive(Debug)]
pub enum CodeActionEvent {
    /// Code actions were asked for.
    Requested,
    /// The text of the document was read, or could not be.
    Read(Result<String, String>),
}

/// What to do next for code actions.
#[derive(Debug)]
pub enum CodeActionAction {
    /// Read the text of the document.
    Read,
    /// Answer with this code action.
    Finish(Option<HeaderCodeAction>),
}

/// What to warn of, and what to do next.
#[derive(Debug)]
pub struct CodeActionStep {
    pub warnings: Vec<String>,
    pub action: CodeActionAction,
}

/// The edit brings the header of this document up to date, at some time that
/// the clock may show.
pub open spec fn is_header_workspace_edit(
    edit: WorkspaceEdit,
    uri: Seq<char>,
    source: Seq<char>,
    settings: HeaderSettings,
    user: Option<Seq<char>>,
    username: Option<Seq<char>>,
) -> bool {
    &&& edit.edits_only(uri)
    &&& exists|timestamp: Seq<char>|
        clock_text(timestamp) && #[trigger] is_signed_header_edit(
            edit.changes->0@[0].1@[0],
            uri,
            source,
            settings,
            user,
            username,
            timestamp,
        )
}

/// Decides what follows when code actions are asked for. One is offered for C
/// files: it brings the header up to date.
pub fn header_code_actions(
    uri: &DocumentUri,
    header_settings: &HeaderSettings,
    user: Option<&str>,
    username: Option<&str>,
    event: CodeActionEvent,
) -> (step: CodeActionStep)
    ensures
        match event {
            CodeActionEvent::Requested => views(step.warnings@) == Seq::<Seq<char>>::empty()
                && if c_document(uri.text@) {
                step.action is Read
            } else {
                step.action is Finish && step.action->Finish_0 is None
            },
            CodeActionEvent::Read(Err(error)) => views(step.warnings@) == seq![error@]
                && step.action is Finish && step.action->Finish_0 is None,
            CodeActionEvent::Read(Ok(source)) => if uri_file_name(uri.text@) is Some {
                &&& views(step.warnings@) == Seq::<Seq<char>>::empty()
                &&& step.action is Finish
                &&& step.action->Finish_0 is Some
                &&& step.action->Finish_0->0.title@ == HEADER_ACTION_TITLE@
                &&& step.action->Finish_0->0.kind@ == HEADER_CODE_ACTION_KIND@
                &&& step.action->Finish_0->0.is_preferred
                &&& is_header_workspace_edit(
                    step.action->Finish_0->0.edit,
                    uri.text@,
                    source@,
                    *header_settings,
                    str_view(user),
                    str_view(username),
                )
            } else {
                &&& views(step.warnings@) == seq![no_file_name_text(uri.text@)]
                &&& step.action is Finish
                &&& step.action->Finish_0 is None
            },
        },
{
    match event {
        CodeActionEvent::Requested => {
            let action = if is_supported_c_document(uri) {
                CodeActionAction::Read
            } else {
                CodeActionAction::Finish(None)
            };
            CodeActionStep { warnings: no_texts(), action }
        },
        CodeActionEvent::Read(Err(error)) => CodeActionStep {
            warnings: one_string(error),
            action: CodeActionAction::Finish(None),
        },
        CodeActionEvent::Read(Ok(source)) => {
            match build_header_workspace_edit(
                uri,
                source.as_str(),
                header_settings,
                user,
                username,
            ) {
                Ok(edit) => {
                    let action = HeaderCodeAction {
                        title: HEADER_ACTION_TITLE.to_string(),
                        kind: HEADER_CODE_ACTION_KIND.to_string(),
                        edit,
                        is_preferred: true,
                    };
                    CodeActionStep {
                        warnings: no_texts(),
                        action: CodeActionAction::Finish(Some(action)),
                    }
                },
                Err(error) => CodeActionStep {
                    warnings: one_string(error),
                    action: CodeActionAction::Finish(None),
                },
            }
        },
    }
}

// ---------------------------------------------------------------------------
// The header command
// ---------------------------------------------------------------------------

/// What the editor answered to an edit that was sent to it.
#[derive(Debug)]
pub enum ApplyOutcome {
    /// The edit was applied.
    Applied,
    /// The edit was not applied, and why.
    Rejected(Option<String>),
    /// The edit did not get through.
    Failed(String),
}

/// What is said of an edit that was not applied for a reason not given.
pub const NO_REASON: &'static str = "the client rejected the edit";

/// What is warned of after an edit was sent to the editor.
pub open spec fn apply_warning_text(context: Seq<char>, outcome: ApplyOutcome) -> Option<
    Seq<char>,
> {
    match outcome {
        ApplyOutcome::Applied => None,
        ApplyOutcome::Rejected(Some(reason)) => Some(
            "failed to apply "@ + context + ": "@ + reason@,
        ),
        ApplyOutcome::Rejected(None) => Some("failed to apply "@ + context + ": "@ + NO_REASON@),
        ApplyOutcome::Failed(error) => Some(
            "failed to send "@ + context + " to the client: "@ + error@,
        ),
    }
}

/// What is warned of after an edit was sent to the editor, as a list.
pub open spec fn apply_warning_texts(context: Seq<char>, outcome: ApplyOutcome) -> Seq<
    Seq<char>,
> {
    match apply_warning_text(context, outcome) {
        Some(text) => seq![text],
        None => Seq::empty(),
    }
}

/// Tells what to warn of after an edit was sent to the editor.
pub fn apply_warnings(context: &str, outcome: &ApplyOutcome) -> (warnings: Vec<String>)
    ensures
        views(warnings@) == apply_warning_texts(context@, *outcome),
{
    match outcome {
        ApplyOutcome::Applied => no_texts(),
        ApplyOutcome::Rejected(reason) => {
            let mut text = joined3("failed to apply ", context, ": ");
            match reason {
                Some(reason) => {
                    text.append(reason.as_str());
                },
                None => {
                    text.append(NO_REASON);
                },
            }
            one_string(text)
        },
        ApplyOutcome::Failed(error) => {
            let mut text = joined3("failed to send ", context, " to the client: ");
            text.append(error.as_str());
            one_string(text)
        },
    }
}

/// What has happened since a command was given.
#[derive(Debug)]
pub enum CommandEvent<'a> {
    /// The command was given, with its first argument.
    Requested { command: &'a str, argument: Option<&'a Value> },
    /// The text of the document was read, or could not be.
    Read { uri: DocumentUri, text: Result<String, String> },
    /// The editor has answered to the edit.
    Answered(ApplyOutcome),
}

/// What to do next for a command.
#[derive(Debug)]
pub enum CommandAction {
    /// Read the text of this document.
    Read(DocumentUri),
    /// Send this edit to the editor.
    Apply(WorkspaceEdit),
    /// Nothing is left to do.
    Finish,
}

/// What to warn of, and what to do next.
#[derive(Debug)]
pub struct CommandStep {
    pub warnings: Vec<String>,
    pub action: CommandAction,
}

/// The document that the first argument of a command names.
pub open spec fn requested_uri(argument: Option<&Value>) -> Option<Seq<char>> {
    match argument {
        Some(value) => normal_uri(argument_text(*value)),
        None => None,
    }
}

/// What is said of a command without a document.
pub const NO_URI_MESSAGE: &'static str =
    "`42tools.insertHeader` was called without a valid document URI";

impl CommandStep {
    /// This is warned of, and nothing is left to do.
    pub open spec fn gives_up(self, warning: Seq<char>) -> bool {
        views(self.warnings@) == seq![warning] && self.action is Finish
    }
}

/// Decides what follows when a command is given. The one command brings the
/// header of the document up to date that its first argument names.
pub fn execute_header_command(
    header_settings: &HeaderSettings,
    user: Option<&str>,
    username: Option<&str>,
    event: CommandEvent<'_>,
) -> (step: CommandStep)
    ensures
        match event {
            CommandEvent::Requested { command, argument } => if command@
                != INSERT_HEADER_COMMAND@ {
                step.gives_up("unknown command requested: "@ + command@)
            } else if requested_uri(argument) is None {
                step.gives_up(NO_URI_MESSAGE@)
            } else {
                &&& views(step.warnings@) == Seq::<Seq<char>>::empty()
                &&& step.action is Read
                &&& step.action->Read_0.text@ == requested_uri(argument)->0
            },
            CommandEvent::Read { uri, text: Err(error) } => step.gives_up(error@),
            CommandEvent::Read { uri, text: Ok(source) } => if uri_file_name(uri.text@) is Some {
                &&& views(step.warnings@) == Seq::<Seq<char>>::empty()
                &&& step.action is Apply
                &&& is_header_workspace_edit(
                    step.action->Apply_0,
                    uri.text@,
                    source@,
                    *header_settings,
                    str_view(user),
                    str_view(username),
                )
            } else {
                step.gives_up(no_file_name_text(uri.text@))
            },
            CommandEvent::Answered(outcome) => {
                &&& views(step.warnings@) == apply_warning_texts(HEADER_EDIT_CONTEXT@, outcome)
                &&& step.action is Finish
            },
        },
{
    match event {
        CommandEvent::Requested { command, argument } => {
            if !same_text(command, INSERT_HEADER_COMMAND) {
                return CommandStep {
                    warnings: one_string(joined("unknown command requested: ", command)),
                    action: CommandAction::Finish,
                };
            }
            let uri = match argument {
                Some(value) => parse_command_uri(value),
                None => None,
            };
            match uri {
                Some(uri) => CommandStep {
                    warnings: no_texts(),
                    action: CommandAction::Read(uri),
                },
                None => CommandStep {
                    warnings: one_text(NO_URI_MESSAGE),
                    action: CommandAction::Finish,
                },
            }
        },
        CommandEvent::Read { uri: _, text: Err(error) } => CommandStep {
            warnings: one_string(error),
            action: CommandAction::Finish,
        },
        CommandEvent::Read { uri, text: Ok(source) } => {
            match build_header_workspace_edit(
                &uri,
                source.as_str(),
                header_settings,
                user,
                username,
            ) {
                Ok(edit) => CommandStep {
                    warnings: no_texts(),
                    action: CommandAction::Apply(edit),
                },
                Err(error) => CommandStep {
                    warnings: one_string(error),
                    action: CommandAction::Finish,
                },
            }
        },
        CommandEvent::Answered(outcome) => CommandStep {
            warnings: apply_warnings(HEADER_EDIT_CONTEXT, &outcome),
            action: CommandAction::Finish,
        },
    }
}

// ---------------------------------------------------------------------------
// New settings
// ---------------------------------------------------------------------------

/// A message to the user.
#[derive(Debug, Clone, PartialEq, Eq)]
pub struct Notice {
    pub is_warning: bool,
    pub text: String,
}

/// Tells the user whether new settings were taken.
pub fn settings_notice(outcome: &Result<(), String>) -> (notice: Notice)
    ensures
        match outcome {
            Ok(_) => !notice.is_warning && notice.text@ == "42 Tools settings updated"@,
            Err(error) => notice.is_warning && notice.text@
                == "failed to apply runtime settings: "@ + error@,
        },
{
    match outcome {
        Ok(_) => Notice { is_warning: false, text: "42 Tools settings updated".to_string() },
        Err(error) => Notice {
            is_warning: true,
            text: joined("failed to apply runtime settings: ", error.as_str()),
        },
    }
}

} // verus!
