use forty_two_tools::edits::{Position, TextEdit};
use forty_two_tools::formatter::FormatterError;
use forty_two_tools::header::{build_header_block, has_42_header};
use forty_two_tools::server::{
    apply_warnings, execute_header_command, finish_save, header_code_actions, initialize,
    save_pipeline_edits, ApplyOutcome, CodeActionAction, CodeActionEvent, CommandAction,
    CommandEvent, SaveAction, SaveEvent, SaveStep, SAVE_EDITS_CONTEXT,
};
use forty_two_tools::settings::{AuthorIdentity, HeaderSettings};
use forty_two_tools::uri::DocumentUri;
use serde_json::Value;

fn uri(text: &str) -> DocumentUri {
    DocumentUri::parse(text).expect("valid URI")
}

fn main_c() -> DocumentUri {
    uri("file:///tmp/main.c")
}

fn identity() -> AuthorIdentity {
    AuthorIdentity {
        login: "marvin".to_string(),
        email: "marvin@student.42istanbul.com.tr".to_string(),
    }
}

fn timestamp() -> &'static str {
    "2026/03/11 12:34:56"
}

fn failure() -> FormatterError {
    FormatterError::Spawn {
        program: "c_formatter_42".to_string(),
        error: "not found".to_string(),
    }
}

fn save(document: &DocumentUri, event: SaveEvent) -> SaveStep {
    save_pipeline_edits(document, &HeaderSettings::default(), Some("marvin"), None, event)
}

fn single_edit(step: SaveStep) -> TextEdit {
    match step.action {
        SaveAction::Finish(Some(mut edits)) => {
            assert_eq!(edits.len(), 1);
            edits.remove(0)
        }
        other => panic!("expected an edit, got {other:?}"),
    }
}

#[test]
fn server_describes_itself() {
    let description = initialize();
    assert_eq!(description.name, "42 Tools LSP");
    assert_eq!(description.version, "0.1.4");
    assert!(description.open_close && description.full_text_sync && description.formatting);
    assert!(description.will_save && description.will_save_wait_until && description.save);
    assert_eq!(description.code_action_kinds, vec!["source.42tools.header"]);
    assert!(!description.resolves_code_actions);
    assert_eq!(description.commands, vec!["42tools.insertHeader"]);
}

#[test]
fn only_c_files_are_saved() {
    let step = save(&uri("file:///tmp/main.rs"), SaveEvent::Requested);
    assert!(matches!(step.action, SaveAction::Finish(None)));
    assert!(step.warnings.is_empty());
    let step = save(&main_c(), SaveEvent::Requested);
    assert!(matches!(step.action, SaveAction::Read));
    assert!(step.warnings.is_empty());
}

#[test]
fn unreadable_documents_are_left_alone() {
    let step = save(&main_c(), SaveEvent::Read(Err("no such file".to_string())));
    assert_eq!(step.warnings, vec!["no such file"]);
    assert!(matches!(step.action, SaveAction::Finish(None)));
    let step = save(&main_c(), SaveEvent::Read(Ok("int a;\n".to_string())));
    match step.action {
        SaveAction::Format(text) => assert_eq!(text, "int a;\n"),
        other => panic!("expected formatting, got {other:?}"),
    }
}

#[test]
fn saved_documents_are_formatted_and_signed() {
    let step = save(
        &main_c(),
        SaveEvent::Formatted {
            source: "int  a;\nint b;".to_string(),
            outcome: Ok("int\ta;\n".to_string()),
        },
    );
    assert!(step.warnings.is_empty());
    let edit = single_edit(step);
    assert_eq!(edit.range.start, Position::new(0, 0));
    assert_eq!(edit.range.end, Position::new(1, 6));
    assert!(has_42_header(&edit.new_text));
    assert!(edit.new_text.contains("/*   By: marvin <marvin@student.42istanbul.com.tr>"));
    assert!(edit.new_text.ends_with("*/\nint\ta;\n"));
}

#[test]
fn failed_formatting_keeps_the_text() {
    let source = "int  a;\n";
    let step = save(
        &main_c(),
        SaveEvent::Formatted {
            source: source.to_string(),
            outcome: Err(failure()),
        },
    );
    assert_eq!(step.warnings, vec!["failed to launch `c_formatter_42`: not found"]);
    assert!(single_edit(step).new_text.ends_with(source));
}

#[test]
fn documents_without_a_name_get_no_header() {
    let document = uri("untitled:main.c");
    let formatted = || Ok("int\ta;\n".to_string());
    let step =
        finish_save(&document, None, "int  a;\n", formatted(), &identity(), timestamp());
    assert_eq!(
        step.warnings,
        vec!["could not resolve a file name from `untitled:main.c`"]
    );
    assert_eq!(single_edit(step).new_text, "int\ta;\n");
    let step =
        finish_save(&document, None, "int\ta;\n", formatted(), &identity(), timestamp());
    assert!(matches!(step.action, SaveAction::Finish(None)));
    let step =
        finish_save(&document, None, "int  a;\n", Err(failure()), &identity(), timestamp());
    assert_eq!(step.warnings.len(), 2);
    assert!(matches!(step.action, SaveAction::Finish(None)));
}

#[test]
fn second_save_edits_nothing() {
    let source = "int\ta;\n";
    let expected = format!(
        "{}{source}",
        build_header_block("main.c", &identity(), timestamp(), "\n")
    );
    let step = finish_save(
        &main_c(),
        Some("main.c"),
        source,
        Ok(source.to_string()),
        &identity(),
        timestamp(),
    );
    assert_eq!(single_edit(step).new_text, expected);
    let step = finish_save(
        &main_c(),
        Some("main.c"),
        &expected,
        Ok(expected.clone()),
        &identity(),
        timestamp(),
    );
    assert!(step.warnings.is_empty());
    assert!(matches!(step.action, SaveAction::Finish(None)));
}

#[test]
fn code_actions_bring_headers_up_to_date() {
    let settings = HeaderSettings {
        login: Some("cadet".to_string()),
        email_domain: None,
    };
    let ask = |document: &DocumentUri, event: CodeActionEvent| {
        header_code_actions(document, &settings, None, None, event)
    };
    let step = ask(&uri("file:///tmp/main.rs"), CodeActionEvent::Requested);
    assert!(matches!(step.action, CodeActionAction::Finish(None)));
    let step = ask(&main_c(), CodeActionEvent::Requested);
    assert!(matches!(step.action, CodeActionAction::Read));
    let step = ask(&main_c(), CodeActionEvent::Read(Err("gone".to_string())));
    assert_eq!(step.warnings, vec!["gone"]);
    assert!(matches!(step.action, CodeActionAction::Finish(None)));
    let step = ask(&uri("untitled:main.c"), CodeActionEvent::Read(Ok(String::new())));
    assert_eq!(
        step.warnings,
        vec!["could not resolve a file name from `untitled:main.c`"]
    );
    let step = ask(&main_c(), CodeActionEvent::Read(Ok(String::new())));
    assert!(step.warnings.is_empty());
    match step.action {
        CodeActionAction::Finish(Some(action)) => {
            assert_eq!(action.title, "42 Tools: Insert or Update Header");
            assert_eq!(action.kind, "source.42tools.header");
            assert!(action.is_preferred);
            let changes = action.edit.changes.expect("changes");
            assert_eq!(changes[0].0, main_c());
            assert!(has_42_header(&changes[0].1[0].new_text));
            assert!(changes[0].1[0].new_text.contains("by cadet "));
        }
        other => panic!("expected a code action, got {other:?}"),
    }
}

#[test]
fn commands_ask_for_their_document() {
    let settings = HeaderSettings::default();
    let argument: Value = serde_json::from_str("\"file:///tmp/main.c\"").expect("valid JSON");
    let run = |command: &str, argument: Option<&Value>| {
        execute_header_command(
            &settings,
            None,
            None,
            CommandEvent::Requested { command, argument },
        )
    };
    let step = run("42tools.unknown", Some(&argument));
    assert_eq!(step.warnings, vec!["unknown command requested: 42tools.unknown"]);
    assert!(matches!(step.action, CommandAction::Finish));
    let step = run("42tools.insertHeader", None);
    assert_eq!(
        step.warnings,
        vec!["`42tools.insertHeader` was called without a valid document URI"]
    );
    assert!(matches!(step.action, CommandAction::Finish));
    let step = run("42tools.insertHeader", Some(&argument));
    assert!(step.warnings.is_empty());
    match step.action {
        CommandAction::Read(document) => assert_eq!(document, main_c()),
        other => panic!("expected a document, got {other:?}"),
    }
}

#[test]
fn commands_send_their_edit() {
    let settings = HeaderSettings::default();
    let run = |event: CommandEvent<'_>| {
        execute_header_command(&settings, Some("marvin"), None, event)
    };
    let step = run(CommandEvent::Read {
        uri: main_c(),
        text: Err("gone".to_string()),
    });
    assert_eq!(step.warnings, vec!["gone"]);
    assert!(matches!(step.action, CommandAction::Finish));
    let step = run(CommandEvent::Read {
        uri: uri("untitled:main.c"),
        text: Ok(String::new()),
    });
    assert_eq!(step.warnings.len(), 1);
    assert!(matches!(step.action, CommandAction::Finish));
    let step = run(CommandEvent::Read {
        uri: main_c(),
        text: Ok(String::new()),
    });
    match step.action {
        CommandAction::Apply(edit) => {
            let changes = edit.changes.expect("changes");
            assert_eq!(changes.len(), 1);
            assert!(has_42_header(&changes[0].1[0].new_text));
        }
        other => panic!("expected an edit, got {other:?}"),
    }
    let step = run(CommandEvent::Answered(ApplyOutcome::Rejected(None)));
    assert_eq!(
        step.warnings,
        vec!["failed to apply 42 header edit: the client rejected the edit"]
    );
    assert!(matches!(step.action, CommandAction::Finish));
}

#[test]
fn edits_that_were_not_applied_are_reported() {
    let warn = |outcome: ApplyOutcome| apply_warnings(SAVE_EDITS_CONTEXT, &outcome);
    assert!(warn(ApplyOutcome::Applied).is_empty());
    assert_eq!(
        warn(ApplyOutcome::Rejected(Some("read only".to_string()))),
        vec!["failed to apply 42 Tools save pipeline edits: read only"]
    );
    assert_eq!(
        warn(ApplyOutcome::Failed("closed".to_string())),
        vec!["failed to send 42 Tools save pipeline edits to the client: closed"]
    );
}

#[test]
fn a_save_formats_what_was_read() {
    let mut event = SaveEvent::Requested;
    let mut given = Vec::new();
    let edits = loop {
        let step = save(&main_c(), event);
        assert!(step.warnings.is_empty());
        event = match step.action {
            SaveAction::Read => SaveEvent::Read(Ok("int  a;\n".to_string())),
            SaveAction::Format(source) => {
                given.push(source.clone());
                SaveEvent::Formatted {
                    source,
                    outcome: Ok("int\ta;\n".to_string()),
                }
            }
            SaveAction::Finish(edits) => break edits.expect("edits"),
        };
    };
    assert_eq!(given, vec!["int  a;\n"]);
    assert_eq!(edits[0].range.end, Position::new(1, 0));
    assert!(edits[0].new_text.ends_with("*/\nint\ta;\n"));
}
