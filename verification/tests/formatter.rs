use forty_two_tools::formatter::{
    bundled_formatter_path, formatter_candidates, formatter_outcome, resolve_formatter_command, run_formatter,
    run_formatter_command, FormatterAction, FormatterCommand, FormatterError, FormatterEvent,
    ProcessAction, ProcessEvent, ProcessExit,
};
use forty_two_tools::settings::FormatterSettings;

fn command(program: &str, arguments: &[&str]) -> FormatterCommand {
    FormatterCommand {
        program: program.to_string(),
        arguments: arguments.iter().map(|argument| argument.to_string()).collect(),
    }
}

fn configured(path: Option<&str>) -> FormatterSettings {
    FormatterSettings {
        path: path.map(|path| path.to_string()),
        arguments: vec!["--flag".to_string()],
    }
}

fn spawn_error(program: &str) -> FormatterError {
    FormatterError::Spawn {
        program: program.to_string(),
        error: "No such file or directory".to_string(),
    }
}

fn run(program: &str, event: ProcessEvent) -> ProcessAction {
    run_formatter_command(program, &["--flag".to_string()], "int a;\n", event)
}

fn exited(success: bool, stdout: &[u8], stderr: &[u8]) -> ProcessEvent {
    ProcessEvent::Exited(Ok(ProcessExit {
        success,
        status: "exit status: 7".to_string(),
        stdout: stdout.to_vec(),
        stderr: stderr.to_vec(),
    }))
}

#[test]
fn formatter_settings_path_has_highest_priority() {
    let command = resolve_formatter_command(&FormatterSettings {
        path: Some("/tmp/custom-formatter".to_string()),
        arguments: vec!["--flag".to_string()],
    });

    assert_eq!(command.program, "/tmp/custom-formatter");
    assert_eq!(command.arguments, vec!["--flag".to_string()]);
}

#[test]
fn formatter_is_looked_for_where_none_is_set() {
    assert_eq!(
        resolve_formatter_command(&configured(None)),
        command("c_formatter_42", &["--flag"])
    );
    assert_eq!(
        resolve_formatter_command(&configured(Some("  "))),
        command("c_formatter_42", &["--flag"])
    );
    assert_eq!(
        FormatterCommand::python_module_formatter(),
        command("python3", &["-m", "c_formatter_42"])
    );
}

#[test]
fn candidates_come_in_order() {
    assert_eq!(
        formatter_candidates(&configured(Some(" /opt/fmt ")), Some("/bundle/c_formatter_42")),
        vec![command("/opt/fmt", &["--flag"])]
    );
    assert_eq!(
        formatter_candidates(&configured(None), Some("/bundle/c_formatter_42")),
        vec![
            command("/bundle/c_formatter_42", &["--flag"]),
            command("c_formatter_42", &["--flag"]),
            command("python3", &["-m", "c_formatter_42"]),
        ]
    );
    assert_eq!(
        formatter_candidates(&configured(None), None),
        vec![
            command("c_formatter_42", &["--flag"]),
            command("python3", &["-m", "c_formatter_42"]),
        ]
    );
}

#[test]
fn next_candidate_is_tried_where_one_cannot_be_launched() {
    let settings = configured(None);
    let mut event = FormatterEvent::Requested;
    let mut programs = Vec::new();
    let error = loop {
        match run_formatter(&settings, None, event) {
            FormatterAction::Run { tried, command } => {
                assert_eq!(tried, programs.len());
                event = FormatterEvent::Ran {
                    tried: tried + 1,
                    outcome: Err(spawn_error(&command.program)),
                };
                programs.push(command.program);
            }
            FormatterAction::Return(outcome) => break outcome.expect_err("nothing launched"),
        }
    };
    assert_eq!(programs, vec!["c_formatter_42", "python3"]);
    assert_eq!(error.message(), "failed to launch `python3`: No such file or directory");
}

#[test]
fn first_launched_formatter_is_the_last() {
    let settings = configured(None);
    let outcome = Ok("formatted".to_string());
    match run_formatter(&settings, None, FormatterEvent::Ran { tried: 1, outcome }) {
        FormatterAction::Return(Ok(text)) => assert_eq!(text, "formatted"),
        other => panic!("expected the text, got {other:?}"),
    }
    let failure = FormatterError::Stdin {
        program: "c_formatter_42".to_string(),
        error: "Broken pipe".to_string(),
    };
    match run_formatter(&settings, None, FormatterEvent::Ran { tried: 1, outcome: Err(failure) }) {
        FormatterAction::Return(Err(FormatterError::Stdin { .. })) => {}
        other => panic!("expected the failure, got {other:?}"),
    }
    let outcome = Err(spawn_error("/opt/fmt"));
    let settings = configured(Some("/opt/fmt"));
    match run_formatter(&settings, None, FormatterEvent::Ran { tried: 1, outcome }) {
        FormatterAction::Return(Err(FormatterError::Spawn { program, .. })) => {
            assert_eq!(program, "/opt/fmt");
        }
        other => panic!("expected the failure, got {other:?}"),
    }
}

#[test]
fn a_program_is_given_its_arguments_and_the_text() {
    match run("fmt", ProcessEvent::Requested) {
        ProcessAction::Launch(launched) => assert_eq!(launched, command("fmt", &["--flag"])),
        other => panic!("expected a launch, got {other:?}"),
    }
    match run("fmt", ProcessEvent::Launched(Ok(true))) {
        ProcessAction::Write(text) => assert_eq!(text, "int a;\n"),
        other => panic!("expected the text, got {other:?}"),
    }
    assert!(matches!(run("fmt", ProcessEvent::Written(Ok(()))), ProcessAction::Flush));
    assert!(matches!(run("fmt", ProcessEvent::Flushed(Ok(()))), ProcessAction::Close));
    assert!(matches!(run("fmt", ProcessEvent::Closed), ProcessAction::Wait));
    assert!(matches!(run("fmt", ProcessEvent::Launched(Ok(false))), ProcessAction::Wait));
}

#[test]
fn bundled_formatter_is_a_neighbour() {
    assert_eq!(
        bundled_formatter_path("/work/v0.1.4/forty-two-tools-lsp"),
        "/work/v0.1.4/c_formatter_42"
    );
    assert_eq!(bundled_formatter_path("forty-two-tools-lsp"), "c_formatter_42");
    assert_eq!(bundled_formatter_path(""), "c_formatter_42");
}

#[test]
fn each_failure_of_a_program_has_its_error() {
    let reason = || "no luck".to_string();
    match run("fmt", ProcessEvent::Launched(Err(reason()))) {
        ProcessAction::Return(Err(error @ FormatterError::Spawn { .. })) => {
            assert_eq!(error.message(), "failed to launch `fmt`: no luck");
        }
        other => panic!("expected a launch failure, got {other:?}"),
    }
    match run("fmt", ProcessEvent::Written(Err(reason()))) {
        ProcessAction::Return(Err(error @ FormatterError::Stdin { .. })) => {
            assert_eq!(error.message(), "failed to stream text to `fmt`: no luck");
        }
        other => panic!("expected a write failure, got {other:?}"),
    }
    assert!(matches!(
        run("fmt", ProcessEvent::Flushed(Err(reason()))),
        ProcessAction::Return(Err(FormatterError::Stdin { .. }))
    ));
    assert!(matches!(
        run("fmt", ProcessEvent::Exited(Err(reason()))),
        ProcessAction::Return(Err(FormatterError::Spawn { .. }))
    ));
}

#[test]
fn output_of_a_successful_program_is_text() {
    match run("fmt", exited(true, "int é;\n".as_bytes(), b"ignored")) {
        ProcessAction::Return(Ok(text)) => assert_eq!(text, "int é;\n"),
        other => panic!("expected the output, got {other:?}"),
    }
    match run("fmt", exited(true, &[0x61, 0xff], b"")) {
        ProcessAction::Return(Err(error @ FormatterError::InvalidUtf8 { .. })) => {
            let reason = String::from_utf8(vec![0x61, 0xff]).expect_err("not UTF-8").to_string();
            assert_eq!(
                error.message(),
                format!("`fmt` produced invalid UTF-8 output: {reason}")
            );
        }
        other => panic!("expected an encoding failure, got {other:?}"),
    }
}

#[test]
fn unsuccessful_programs_are_quoted() {
    match run("fmt", exited(false, b"text", b"  line 3: bad\xff\n")) {
        ProcessAction::Return(Err(error @ FormatterError::Exit { .. })) => assert_eq!(
            error.message(),
            "`fmt` exited unsuccessfully: exit status: 7; stderr: line 3: bad\u{fffd}"
        ),
        other => panic!("expected an exit failure, got {other:?}"),
    }
    match run("fmt", exited(false, b"text", b" \n")) {
        ProcessAction::Return(Err(error @ FormatterError::Exit { .. })) => {
            assert_eq!(error.message(), "`fmt` exited unsuccessfully: exit status: 7");
        }
        other => panic!("expected an exit failure, got {other:?}"),
    }
    let outcome = formatter_outcome("fmt", false, "signal: 9".to_string(), Ok("x".to_string()), "");
    assert_eq!(
        outcome.expect_err("failure").message(),
        "`fmt` exited unsuccessfully: signal: 9"
    );
}

#[test]
fn a_whole_run_gives_the_output() {
    let mut event = ProcessEvent::Requested;
    let mut done = Vec::new();
    let outcome = loop {
        event = match run("fmt", event) {
            ProcessAction::Launch(launched) => {
                done.push(format!("launch {} {:?}", launched.program, launched.arguments));
                ProcessEvent::Launched(Ok(true))
            }
            ProcessAction::Write(text) => {
                done.push(format!("write {text:?}"));
                ProcessEvent::Written(Ok(()))
            }
            ProcessAction::Flush => {
                done.push("flush".to_string());
                ProcessEvent::Flushed(Ok(()))
            }
            ProcessAction::Close => {
                done.push("close".to_string());
                ProcessEvent::Closed
            }
            ProcessAction::Wait => {
                done.push("wait".to_string());
                exited(true, b"int\ta;\n", b"")
            }
            ProcessAction::Return(outcome) => break outcome,
        };
    };
    assert_eq!(
        done,
        vec!["launch fmt [\"--flag\"]", "write \"int a;\\n\"", "flush", "close", "wait"]
    );
    assert_eq!(outcome.expect("output"), "int\ta;\n");
}
