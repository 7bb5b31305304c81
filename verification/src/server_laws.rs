//! What holds of documents that are saved.

use serde_json::Value;
use vstd::prelude::*;

use crate::clock::clock_text;
use crate::edit_laws::{
    edit_has_one_outcome, full_document_edit_replaces_all, gives, last_line, signed_edit_is_signed,
};
use crate::edits::{
    end_character, end_line, is_header_edit, is_signed_header_edit, no_file_name_text,
    WorkspaceEdit,
};
use crate::formatter::{formatter_error_text, FormatterError};
use crate::header::{has_header, header_block, rendered, updated_line, UPDATED_LOGIN_WIDTH};
use crate::header_laws::{
    fits_header, rendered_document_has_header, second_update_changes_nothing,
    update_changes_one_line,
};
use crate::json::{argument_text, json_member, json_str, normal_uri, uri_view};
use crate::lines::{clean_breaks, document_lines, uniform_breaks};
use crate::pattern::is_stamp;
use crate::server::{
    apply_warning_texts, formatted_text, is_header_workspace_edit, is_save_step, is_saved,
    is_signed_save, requested_uri, ApplyOutcome, CommandStep, SaveAction, SaveEvent, SaveStep,
};
use crate::settings::{author_domain, author_login, HeaderSettings};
use crate::text::{field, line_break, single_line, views};
use crate::uri::{c_document, uri_file_name, url_normal_form, DocumentUri};

verus! {

/// The document holds this text once the edits of a save were made.
pub open spec fn saves(step: SaveStep, source: Seq<char>, output: Seq<char>) -> bool {
    &&& step.action is Finish
    &&& match step.action->Finish_0 {
        Some(edits) => edits@.len() == 1 && gives(edits@[0], source, output),
        None => output == source,
    }
}

/// A saved document is what the formatter left, with a header that is up to
/// date. Where the formatter failed, nothing of the document is lost.
///
/// Documents are left out whose last line holds a carriage return, as in
/// `full_document_edit_replaces_all`.
pub proof fn saved_document_is_rendered(
    step: SaveStep,
    uri: Seq<char>,
    file_name: Seq<char>,
    source: Seq<char>,
    outcome: Result<String, FormatterError>,
    login: Seq<char>,
    email: Seq<char>,
    timestamp: Seq<char>,
    output: Seq<char>,
)
    requires
        is_saved(step, uri, Some(file_name), source, outcome, login, email, timestamp),
        saves(step, source, output),
        !last_line(source).contains('\r'),
    ensures
        output == rendered(
            formatted_text(source, outcome),
            file_name,
            login,
            email,
            timestamp,
        ),
{
    let meant = rendered(formatted_text(source, outcome), file_name, login, email, timestamp);
    if step.action->Finish_0 is Some {
        let edit = step.action->Finish_0->0@[0];
        full_document_edit_replaces_all(edit, source, meant);
        edit_has_one_outcome(edit, source, output, meant);
    }
}

/// A saved document has a header.
pub proof fn saved_document_has_header(
    step: SaveStep,
    uri: Seq<char>,
    file_name: Seq<char>,
    source: Seq<char>,
    outcome: Result<String, FormatterError>,
    login: Seq<char>,
    email: Seq<char>,
    timestamp: Seq<char>,
    output: Seq<char>,
)
    requires
        is_saved(step, uri, Some(file_name), source, outcome, login, email, timestamp),
        saves(step, source, output),
        !last_line(source).contains('\r'),
        is_stamp(timestamp),
        if has_header(formatted_text(source, outcome)) {
            single_line(field(login, UPDATED_LOGIN_WIDTH as nat))
        } else {
            fits_header(file_name, login, email)
        },
    ensures
        has_header(output),
{
    let formatted = formatted_text(source, outcome);
    saved_document_is_rendered(
        step,
        uri,
        file_name,
        source,
        outcome,
        login,
        email,
        timestamp,
        output,
    );
    rendered_document_has_header(formatted, file_name, login, email, timestamp);
}

/// Saving a document once more within the same second edits nothing, if the
/// formatter leaves alone what was saved.
///
/// Left out is what `second_update_changes_nothing` leaves out.
pub proof fn second_save_edits_nothing(
    step: SaveStep,
    uri: Seq<char>,
    file_name: Seq<char>,
    formatted: Seq<char>,
    outcome: Result<String, FormatterError>,
    login: Seq<char>,
    email: Seq<char>,
    timestamp: Seq<char>,
)
    requires
        is_saved(
            step,
            uri,
            Some(file_name),
            rendered(formatted, file_name, login, email, timestamp),
            outcome,
            login,
            email,
            timestamp,
        ),
        outcome matches Ok(text) ==> text@ == rendered(
            formatted,
            file_name,
            login,
            email,
            timestamp,
        ),
        is_stamp(timestamp),
        if has_header(formatted) {
            clean_breaks(formatted) && single_line(field(login, UPDATED_LOGIN_WIDTH as nat))
        } else {
            uniform_breaks(formatted) && fits_header(file_name, login, email)
        },
    ensures
        step.action is Finish,
        step.action->Finish_0 is None,
{
    second_update_changes_nothing(formatted, file_name, login, email, timestamp);
}

/// The event tells what came of the action. A text that is handed out to be
/// formatted comes back with the outcome.
pub open spec fn save_answer(action: SaveAction, event: SaveEvent) -> bool {
    match action {
        SaveAction::Read => event is Read,
        SaveAction::Format(text) => event is Formatted && event->source == text,
        SaveAction::Finish(_) => false,
    }
}

/// The events and steps of saving a document from the request to the answer.
pub open spec fn save_course(
    steps: Seq<SaveStep>,
    events: Seq<SaveEvent>,
    uri: Seq<char>,
    settings: HeaderSettings,
    user: Option<Seq<char>>,
    username: Option<Seq<char>>,
) -> bool {
    &&& steps.len() == events.len()
    &&& steps.len() > 0
    &&& events[0] is Requested
    &&& forall|k: int|
        0 <= k < steps.len() ==> is_save_step(
            #[trigger] steps[k],
            uri,
            settings,
            user,
            username,
            events[k],
        )
    &&& forall|k: int|
        0 <= k < steps.len() - 1 ==> save_answer((#[trigger] steps[k]).action, events[k + 1])
    &&& steps.last().action is Finish
}

/// Saving a document reads it if it is a C file, formats what was read, and
/// ends with the edits that this text needs.
pub proof fn save_edits_what_was_read(
    steps: Seq<SaveStep>,
    events: Seq<SaveEvent>,
    uri: Seq<char>,
    settings: HeaderSettings,
    user: Option<Seq<char>>,
    username: Option<Seq<char>>,
)
    requires
        save_course(steps, events, uri, settings, user, username),
    ensures
        if !c_document(uri) {
            steps.len() == 1 && steps[0].ends_quietly()
        } else {
            &&& steps.len() > 1
            &&& steps[0].action is Read
            &&& events[1] is Read
            &&& match events[1]->Read_0 {
                Err(error) => {
                    &&& steps.len() == 2
                    &&& views(steps[1].warnings@) == seq![error@]
                    &&& steps[1].action->Finish_0 is None
                },
                Ok(text) => {
                    &&& steps.len() == 3
                    &&& steps[1].action == SaveAction::Format(text)
                    &&& events[2] is Formatted
                    &&& is_signed_save(
                        steps[2],
                        uri,
                        text@,
                        events[2]->outcome,
                        settings,
                        user,
                        username,
                    )
                },
            }
        },
{
    let n = steps.len() as int;
    assert(is_save_step(steps[0], uri, settings, user, username, events[0]));
    if n > 1 {
        assert(save_answer(steps[0].action, events[1]));
        assert(is_save_step(steps[1], uri, settings, user, username, events[1]));
    }
    if n > 2 {
        assert(save_answer(steps[1].action, events[2]));
        assert(is_save_step(steps[2], uri, settings, user, username, events[2]));
    }
    if n > 3 {
        assert(save_answer(steps[2].action, events[3]));
    }
}

/// Where the formatter gave a text, that text with a header brought up to date
/// is what the document is given, whatever the document held before; nothing is
/// edited where it holds that already.
pub proof fn save_writes_what_the_formatter_gave(
    step: SaveStep,
    uri: Seq<char>,
    file_name: Seq<char>,
    source: Seq<char>,
    text: String,
    login: Seq<char>,
    email: Seq<char>,
    timestamp: Seq<char>,
)
    requires
        is_saved(step, uri, Some(file_name), source, Ok(text), login, email, timestamp),
    ensures
        gives_text(step, source, rendered(text@, file_name, login, email, timestamp)),
        step.warnings@.len() == 0,
{
    assert(views(step.warnings@).len() == step.warnings@.len());
}

/// Where the formatter gave a text that has a header, the saved document has the
/// lines of that text but for the update line, whatever it held before.
pub proof fn saved_lines_are_the_formatted_ones(
    step: SaveStep,
    uri: Seq<char>,
    file_name: Seq<char>,
    source: Seq<char>,
    text: String,
    login: Seq<char>,
    email: Seq<char>,
    timestamp: Seq<char>,
    output: Seq<char>,
)
    requires
        is_saved(step, uri, Some(file_name), source, Ok(text), login, email, timestamp),
        saves(step, source, output),
        !last_line(source).contains('\r'),
        has_header(text@),
        clean_breaks(text@),
        single_line(timestamp),
        single_line(field(login, UPDATED_LOGIN_WIDTH as nat)),
    ensures
        document_lines(output) == document_lines(text@).take(8) + seq![
            updated_line(login, timestamp),
        ] + document_lines(text@).skip(9),
{
    saved_document_is_rendered(
        step,
        uri,
        file_name,
        source,
        Ok(text),
        login,
        email,
        timestamp,
        output,
    );
    update_changes_one_line(text@, file_name, login, email, timestamp);
    let lines = document_lines(text@);
    let new = updated_line(login, timestamp);
    assert(lines.update(8, new) =~= lines.take(8) + seq![new] + lines.skip(9));
}

/// Where the formatter gave a text without a header, the saved document is that
/// text with a new header in front.
pub proof fn saved_text_stands_behind_the_new_header(
    step: SaveStep,
    uri: Seq<char>,
    file_name: Seq<char>,
    source: Seq<char>,
    text: String,
    login: Seq<char>,
    email: Seq<char>,
    timestamp: Seq<char>,
    output: Seq<char>,
)
    requires
        is_saved(step, uri, Some(file_name), source, Ok(text), login, email, timestamp),
        saves(step, source, output),
        !last_line(source).contains('\r'),
        !has_header(text@),
    ensures
        output == header_block(file_name, login, email, timestamp, line_break(text@)) + text@,
{
    saved_document_is_rendered(
        step,
        uri,
        file_name,
        source,
        Ok(text),
        login,
        email,
        timestamp,
        output,
    );
}

/// Where the formatter failed, the document as it was gets its header brought up
/// to date, and the user is told of the failure.
pub proof fn failed_formatter_leaves_the_document(
    step: SaveStep,
    uri: Seq<char>,
    file_name: Seq<char>,
    source: Seq<char>,
    error: FormatterError,
    login: Seq<char>,
    email: Seq<char>,
    timestamp: Seq<char>,
)
    requires
        is_saved(step, uri, Some(file_name), source, Err(error), login, email, timestamp),
    ensures
        gives_text(step, source, rendered(source, file_name, login, email, timestamp)),
        step.warnings@.len() == 1,
        step.warnings@[0]@ == formatter_error_text(error@),
{
    assert(views(step.warnings@).len() == step.warnings@.len());
    assert(views(step.warnings@)[0] == step.warnings@[0]@);
}

/// A document without a file name is given what the formatter gave and no
/// header, and the user is told.
pub proof fn unnamed_document_gets_no_header(
    step: SaveStep,
    uri: Seq<char>,
    source: Seq<char>,
    outcome: Result<String, FormatterError>,
    login: Seq<char>,
    email: Seq<char>,
    timestamp: Seq<char>,
)
    requires
        is_saved(step, uri, None, source, outcome, login, email, timestamp),
    ensures
        match outcome {
            Ok(text) => {
                &&& gives_text(step, source, text@)
                &&& step.warnings@.len() == 1
                &&& step.warnings@[0]@ == no_file_name_text(uri)
            },
            Err(error) => {
                &&& gives_text(step, source, source)
                &&& step.warnings@.len() == 2
                &&& step.warnings@[0]@ == formatter_error_text(error@)
                &&& step.warnings@[1]@ == no_file_name_text(uri)
            },
        },
{
    let told = views(step.warnings@);
    assert(told.len() == step.warnings@.len());
    assert(told[0] == step.warnings@[0]@);
    if outcome is Err {
        assert(told[1] == step.warnings@[1]@);
    }
}

/// The answer gives the document this text, by one edit from its start to its
/// end; by none if it holds it already.
pub open spec fn gives_text(step: SaveStep, source: Seq<char>, text: Seq<char>) -> bool {
    &&& step.action is Finish
    &&& if text == source {
        step.action->Finish_0 is None
    } else {
        &&& step.action->Finish_0 is Some
        &&& step.action->Finish_0->0@.len() == 1
        &&& step.action->Finish_0->0@[0].new_text@ == text
        &&& step.action->Finish_0->0@[0].range.start.line == 0
        &&& step.action->Finish_0->0@[0].range.start.character == 0
        &&& step.action->Finish_0->0@[0].range.end.line == end_line(source)
        &&& step.action->Finish_0->0@[0].range.end.character == end_character(source)
    }
}

/// What is asked for while a document is saved, event by event.
pub proof fn saving_goes_step_by_step(
    step: SaveStep,
    uri: Seq<char>,
    settings: HeaderSettings,
    user: Option<Seq<char>>,
    username: Option<Seq<char>>,
    event: SaveEvent,
)
    requires
        is_save_step(step, uri, settings, user, username, event),
    ensures
        match event {
            SaveEvent::Requested => step.warnings@.len() == 0 && if c_document(uri) {
                step.action is Read
            } else {
                step.action is Finish && step.action->Finish_0 is None
            },
            SaveEvent::Read(Ok(text)) => step.warnings@.len() == 0 && step.action is Format
                && step.action->Format_0 == text,
            SaveEvent::Read(Err(error)) => step.warnings@.len() == 1 && step.warnings@[0]@ == error@
                && step.action is Finish && step.action->Finish_0 is None,
            SaveEvent::Formatted { source, outcome } => exists|timestamp: Seq<char>|
                clock_text(timestamp) && #[trigger] is_saved(
                    step,
                    uri,
                    uri_file_name(uri),
                    source@,
                    outcome,
                    author_login(settings, user, username),
                    author_login(settings, user, username) + seq!['@'] + author_domain(settings),
                    timestamp,
                ),
        },
{
    let told = views(step.warnings@);
    assert(told.len() == step.warnings@.len());
    if step.warnings@.len() > 0 {
        assert(told[0] == step.warnings@[0]@);
    }
    reveal_strlit("@");
    assert("@"@ =~= seq!['@']);
}

/// An edit that brings a header up to date is of one document, and signed at a
/// time that the clock may show.
pub proof fn header_edits_are_signed(
    edit: WorkspaceEdit,
    uri: Seq<char>,
    source: Seq<char>,
    settings: HeaderSettings,
    user: Option<Seq<char>>,
    username: Option<Seq<char>>,
)
    requires
        is_header_workspace_edit(edit, uri, source, settings, user, username),
    ensures
        edit.changes is Some,
        edit.changes->0@.len() == 1,
        edit.changes->0@[0].0.text@ == uri,
        edit.changes->0@[0].1@.len() == 1,
        exists|timestamp: Seq<char>|
            clock_text(timestamp) && #[trigger] is_header_edit(
                edit.changes->0@[0].1@[0],
                source,
                uri_file_name(uri)->0,
                author_login(settings, user, username),
                author_login(settings, user, username) + seq!['@'] + author_domain(settings),
                timestamp,
            ),
{
    let single = edit.changes->0@[0].1@[0];
    let timestamp = choose|timestamp: Seq<char>|
        clock_text(timestamp) && #[trigger] is_signed_header_edit(
            single,
            uri,
            source,
            settings,
            user,
            username,
            timestamp,
        );
    signed_edit_is_signed(single, uri, source, settings, user, username, timestamp);
}

/// The user is told why an edit was not applied, and of nothing where it was.
pub proof fn unapplied_edits_are_told(context: Seq<char>, outcome: ApplyOutcome)
    ensures
        match outcome {
            ApplyOutcome::Applied => apply_warning_texts(context, outcome).len() == 0,
            ApplyOutcome::Rejected(Some(reason)) => apply_warning_texts(context, outcome) == seq![
                "failed to apply "@ + context + ": "@ + reason@,
            ],
            ApplyOutcome::Rejected(None) => apply_warning_texts(context, outcome) == seq![
                "failed to apply "@ + context + ": "@ + "the client rejected the edit"@,
            ],
            ApplyOutcome::Failed(error) => apply_warning_texts(context, outcome) == seq![
                "failed to send "@ + context + " to the client: "@ + error@,
            ],
        },
{
}

/// A command that is given up leaves one warning and nothing to do.
pub proof fn given_up_commands_are_told(step: CommandStep, warning: Seq<char>)
    ensures
        step.gives_up(warning) <==> {
            &&& step.action is Finish
            &&& step.warnings@.len() == 1
            &&& step.warnings@[0]@ == warning
        },
{
    let told = views(step.warnings@);
    assert(told.len() == step.warnings@.len());
    if step.warnings@.len() == 1 {
        assert(told[0] == step.warnings@[0]@);
        if step.warnings@[0]@ == warning {
            assert(told =~= seq![warning]);
        }
    }
}

/// A command names its document by a text or by the member `uri` of an object,
/// in the normal form of that URI; without an argument it names none.
pub proof fn commands_name_their_document(argument: Option<&Value>)
    ensures
        argument is None ==> requested_uri(argument) is None,
        argument is Some && json_str(*argument->0) is Some ==> requested_uri(argument)
            == url_normal_form(json_str(*argument->0)->0),
        argument is Some && json_str(*argument->0) is None ==> match json_member(
            *argument->0,
            "uri"@,
        ) {
            None => requested_uri(argument) is None,
            Some(member) => match json_str(member) {
                None => requested_uri(argument) is None,
                Some(text) => requested_uri(argument) == url_normal_form(text),
            },
        },
        argument is Some ==> requested_uri(argument) == normal_uri(argument_text(*argument->0)),
{
}

/// A document by its URI.
pub proof fn documents_are_named_by_uris(uri: Option<DocumentUri>)
    ensures
        uri is Some <==> uri_view(uri) is Some,
        uri is Some ==> uri_view(uri)->0 == uri->0.text@,
{
}

} // verus!
