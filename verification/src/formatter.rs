//! The formatter: which program is run, and what becomes of its run.

use vstd::prelude::*;
use vstd::utf8::{decode_utf8, valid_utf8};

use crate::bytes::{utf8_error_text, utf8_lossy, utf8_text, utf8_text_lossy};
use crate::settings::{effective, effective_setting, FormatterSettings};
use crate::text::{chars_of, joined, str_view, trim, trimmed, views};

verus! {

/// The formatter that is looked for where the settings name none.
pub const FORMATTER_BINARY: &'static str = "c_formatter_42";

/// The interpreter that runs the formatter as a module.
pub const PYTHON_BINARY: &'static str = "python3";

/// The module that holds the formatter.
pub const PYTHON_FORMATTER_MODULE: &'static str = "c_formatter_42";

/// The flag by which the interpreter runs a module.
pub const PYTHON_MODULE_FLAG: &'static str = "-m";

// ---------------------------------------------------------------------------
// What can go wrong
// ---------------------------------------------------------------------------

/// Why a formatter gave no text.
#[derive(Debug)]
pub enum FormatterError {
    Spawn { program: String, error: String },
    Stdin { program: String, error: String },
    Exit { program: String, status: String, stderr: String },
    InvalidUtf8 { program: String, error: String },
}

/// A formatter error by its characters.
pub enum FormatterErrorView {
    Spawn { program: Seq<char>, error: Seq<char> },
    Stdin { program: Seq<char>, error: Seq<char> },
    Exit { program: Seq<char>, status: Seq<char>, stderr: Seq<char> },
    InvalidUtf8 { program: Seq<char>, error: Seq<char> },
}

impl View for FormatterError {
    type V = FormatterErrorView;

    open spec fn view(&self) -> FormatterErrorView {
        match *self {
            FormatterError::Spawn { program, error } => FormatterErrorView::Spawn {
                program: program@,
                error: error@,
            },
            FormatterError::Stdin { program, error } => FormatterErrorView::Stdin {
                program: program@,
                error: error@,
            },
            FormatterError::Exit { program, status, stderr } => FormatterErrorView::Exit {
                program: program@,
                status: status@,
                stderr: stderr@,
            },
            FormatterError::InvalidUtf8 { program, error } => FormatterErrorView::InvalidUtf8 {
                program: program@,
                error: error@,
            },
        }
    }
}

/// What the user is told of a formatter error.
pub open spec fn formatter_error_text(error: FormatterErrorView) -> Seq<char> {
    match error {
        FormatterErrorView::Spawn { program, error } => "failed to launch `"@ + program + "`: "@
            + error,
        FormatterErrorView::Stdin { program, error } => "failed to stream text to `"@ + program
            + "`: "@ + error,
        FormatterErrorView::Exit { program, status, stderr } => if stderr.len() == 0 {
            "`"@ + program + "` exited unsuccessfully: "@ + status
        } else {
            "`"@ + program + "` exited unsuccessfully: "@ + status + "; stderr: "@ + stderr
        },
        FormatterErrorView::InvalidUtf8 { program, error } => "`"@ + program
            + "` produced invalid UTF-8 output: "@ + error,
    }
}

/// Four texts, one behind the other.
fn message_of(a: &str, b: &str, c: &str, d: &str) -> (text: String)
    ensures
        text@ == a@ + b@ + c@ + d@,
{
    let mut text = a.to_string();
    text.append(b);
    text.append(c);
    text.append(d);
    text
}

impl FormatterError {
    /// What the user is told of the error.
    pub fn message(&self) -> (text: String)
        ensures
            text@ == formatter_error_text(self@),
    {
        match self {
            FormatterError::Spawn { program, error } => message_of(
                "failed to launch `",
                program.as_str(),
                "`: ",
                error.as_str(),
            ),
            FormatterError::Stdin { program, error } => message_of(
                "failed to stream text to `",
                program.as_str(),
                "`: ",
                error.as_str(),
            ),
            FormatterError::Exit { program, status, stderr } => {
                let mut text = message_of(
                    "`",
                    program.as_str(),
                    "` exited unsuccessfully: ",
                    status.as_str(),
                );
                if !stderr.as_str().is_empty() {
                    text.append("; stderr: ");
                    text.append(stderr.as_str());
                }
                text
            },
            FormatterError::InvalidUtf8 { program, error } => message_of(
                "`",
                program.as_str(),
                "` produced invalid UTF-8 output: ",
                error.as_str(),
            ),
        }
    }
}

// ---------------------------------------------------------------------------
// Which program is run
// ---------------------------------------------------------------------------

/// A program with its arguments.
#[derive(Debug, Clone, PartialEq, Eq)]
pub struct FormatterCommand {
    pub program: String,
    pub arguments: Vec<String>,
}

impl View for FormatterCommand {
    type V = (Seq<char>, Seq<Seq<char>>);

    open spec fn view(&self) -> (Seq<char>, Seq<Seq<char>>) {
        (self.program@, views(self.arguments@))
    }
}

/// The formatter as a module of the interpreter.
pub open spec fn python_module() -> (Seq<char>, Seq<Seq<char>>) {
    (PYTHON_BINARY@, seq![PYTHON_MODULE_FLAG@, PYTHON_FORMATTER_MODULE@])
}

impl FormatterCommand {
    /// Runs the formatter as a module of the interpreter.
    pub fn python_module_formatter() -> (command: Self)
        ensures
            command@ == python_module(),
    {
        let mut arguments: Vec<String> = Vec::new();
        arguments.push(PYTHON_MODULE_FLAG.to_string());
        arguments.push(PYTHON_FORMATTER_MODULE.to_string());
        proof {
            assert(views(arguments@) =~= seq![PYTHON_MODULE_FLAG@, PYTHON_FORMATTER_MODULE@]);
        }
        FormatterCommand { program: PYTHON_BINARY.to_string(), arguments }
    }
}

/// The program that the settings name, or the one that is looked for.
pub open spec fn formatter_program(settings: FormatterSettings) -> Seq<char> {
    match effective(settings.path) {
        Some(path) => path,
        None => FORMATTER_BINARY@,
    }
}

/// Runs the formatter that the settings name, with their arguments.
pub fn resolve_formatter_command(settings: &FormatterSettings) -> (command: FormatterCommand)
    ensures
        command@ == (formatter_program(*settings), views(settings.arguments@)),
{
    let program = match effective_setting(&settings.path) {
        Some(path) => path.to_string(),
        None => FORMATTER_BINARY.to_string(),
    };
    let arguments = settings.arguments.clone();
    proof {
        assert(views(arguments@) =~= views(settings.arguments@));
    }
    FormatterCommand { program, arguments }
}

/// The directory of a file, up to and with its last slash.
pub open spec fn directory_part(path: Seq<char>) -> Seq<char>
    decreases path.len(),
{
    if path.len() == 0 || path.last() == '/' {
        path
    } else {
        directory_part(path.drop_last())
    }
}

/// Where the formatter lies that is bundled with a server: beside it.
pub open spec fn bundled_path(server: Seq<char>) -> Seq<char> {
    directory_part(server) + FORMATTER_BINARY@
}

/// Where the formatter lies that is bundled with the server in this file.
pub fn bundled_formatter_path(server: &str) -> (path: String)
    ensures
        path@ == bundled_path(server@),
{
    let chars = chars_of(server);
    let mut end: usize = chars.len();
    proof {
        assert(server@.take(end as int) =~= server@);
    }
    while end > 0 && chars[end - 1] != '/'
        invariant
            end <= chars.len(),
            chars@ == server@,
            directory_part(server@) == directory_part(server@.take(end as int)),
        decreases end,
    {
        proof {
            assert(server@.take(end as int).drop_last() =~= server@.take(end - 1));
        }
        end -= 1;
    }
    joined(server.substring_char(0, end), FORMATTER_BINARY)
}

/// The programs to try in turn. Where the settings name one, it is the only
/// one. Else the formatter that is bundled with the server comes first, where
/// there is one; then the one that is looked for, then the module of the
/// interpreter.
pub open spec fn candidates(settings: FormatterSettings, bundled: Option<Seq<char>>) -> Seq<
    (Seq<char>, Seq<Seq<char>>),
> {
    let arguments = views(settings.arguments@);
    match (effective(settings.path), bundled) {
        (Some(path), _) => seq![(path, arguments)],
        (None, Some(program)) => seq![
            (program, arguments),
            (FORMATTER_BINARY@, arguments),
            python_module(),
        ],
        (None, None) => seq![(FORMATTER_BINARY@, arguments), python_module()],
    }
}

/// The programs to try in turn.
pub fn formatter_candidates(settings: &FormatterSettings, bundled: Option<&str>) -> (commands: Vec<
    FormatterCommand,
>)
    ensures
        commands@.map_values(|command: FormatterCommand| command@) == candidates(
            *settings,
            str_view(bundled),
        ),
{
    let mut commands: Vec<FormatterCommand> = Vec::new();
    let configured = effective_setting(&settings.path).is_some();
    if !configured {
        if let Some(program) = bundled {
            let mut command = resolve_formatter_command(settings);
            command.program = program.to_string();
            commands.push(command);
        }
    }
    commands.push(resolve_formatter_command(settings));
    if !configured {
        commands.push(FormatterCommand::python_module_formatter());
    }
    proof {
        assert(commands@.map_values(|command: FormatterCommand| command@) =~= candidates(
            *settings,
            str_view(bundled),
        ));
    }
    commands
}

/// What has happened since a text was to be formatted.
#[derive(Debug)]
pub enum FormatterEvent {
    /// The text is to be formatted.
    Requested,
    /// As many candidates were run, the last of them with this outcome.
    Ran { tried: usize, outcome: Result<String, FormatterError> },
}

/// What to do next to format a text.
#[derive(Debug)]
pub enum FormatterAction {
    /// Run this program, after as many others.
    Run { tried: usize, command: FormatterCommand },
    /// Hand back what came out.
    Return(Result<String, FormatterError>),
}

impl FormatterAction {
    /// Run the candidate with this index.
    pub open spec fn runs(
        self,
        index: int,
        programs: Seq<(Seq<char>, Seq<Seq<char>>)>,
    ) -> bool {
        self is Run && self->tried == index && self->command@ == programs[index]
    }
}

/// The program could not be launched.
pub open spec fn not_launched(outcome: Result<String, FormatterError>) -> bool {
    outcome is Err && outcome->Err_0 is Spawn
}

/// Another candidate is run, after `tried` of `count` candidates, the last of
/// them with `outcome`.
pub open spec fn tries_next(
    count: int,
    tried: int,
    outcome: Result<String, FormatterError>,
) -> bool {
    not_launched(outcome) && tried < count
}

/// What follows each event while a text is formatted: the first candidate, then
/// the next one where a program could not be launched and a candidate is left,
/// else the outcome stands.
pub open spec fn is_formatter_step(
    action: FormatterAction,
    programs: Seq<(Seq<char>, Seq<Seq<char>>)>,
    event: FormatterEvent,
) -> bool {
    match event {
        FormatterEvent::Requested => action.runs(0, programs),
        FormatterEvent::Ran { tried, outcome } => if tries_next(
            programs.len() as int,
            tried as int,
            outcome,
        ) {
            action.runs(tried as int, programs)
        } else {
            action == FormatterAction::Return(outcome)
        },
    }
}

/// Decides what follows while a text is formatted.
pub fn run_formatter(
    settings: &FormatterSettings,
    bundled: Option<&str>,
    event: FormatterEvent,
) -> (action: FormatterAction)
    ensures
        is_formatter_step(action, candidates(*settings, str_view(bundled)), event),
{
    let mut commands = formatter_candidates(settings, bundled);
    let ghost programs = commands@.map_values(|command: FormatterCommand| command@);
    assert(programs.len() == commands@.len());
    assert(forall|i: int| 0 <= i < commands@.len() ==> programs[i] == (#[trigger] commands@[i])@);
    match event {
        FormatterEvent::Requested => {
            FormatterAction::Run { tried: 0, command: commands.swap_remove(0) }
        },
        FormatterEvent::Ran {
            tried,
            outcome: Err(FormatterError::Spawn { program, error }),
        } => {
            if tried < commands.len() {
                FormatterAction::Run { tried, command: commands.swap_remove(tried) }
            } else {
                FormatterAction::Return(Err(FormatterError::Spawn { program, error }))
            }
        },
        FormatterEvent::Ran { tried: _, outcome } => FormatterAction::Return(outcome),
    }
}

// ---------------------------------------------------------------------------
// The run of one program
// ---------------------------------------------------------------------------

/// How a program ended: whether it succeeded, how the system describes that,
/// and what it wrote.
#[derive(Debug)]
pub struct ProcessExit {
    pub success: bool,
    pub status: String,
    pub stdout: Vec<u8>,
    pub stderr: Vec<u8>,
}

/// What has happened to a program.
#[derive(Debug)]
pub enum ProcessEvent {
    /// It is to be run.
    Requested,
    /// It was launched, and takes input or not; or it could not be launched.
    Launched(Result<bool, String>),
    /// The text was written to it, or could not be.
    Written(Result<(), String>),
    /// What was written has reached it, or could not.
    Flushed(Result<(), String>),
    /// Its input was closed.
    Closed,
    /// It has ended; or waiting for its end failed.
    Exited(Result<ProcessExit, String>),
}

/// What to do with a program next.
#[derive(Debug)]
pub enum ProcessAction {
    /// Launch it, with these arguments in order.
    Launch(FormatterCommand),
    /// Write this text to it, and nothing else.
    Write(String),
    /// See that what was written reaches it.
    Flush,
    /// Close its input.
    Close,
    /// Wait for its end.
    Wait,
    /// Hand back what came out.
    Return(Result<String, FormatterError>),
}

/// What a program that has ended gives, with its output as text or as the
/// reason why it is none.
pub fn formatter_outcome(
    program: &str,
    success: bool,
    status: String,
    stdout: Result<String, String>,
    stderr: &str,
) -> (outcome: Result<String, FormatterError>)
    ensures
        if !success {
            outcome is Err && outcome->Err_0@ == (FormatterErrorView::Exit {
                program: program@,
                status: status@,
                stderr: trimmed(stderr@),
            })
        } else {
            match stdout {
                Ok(text) => outcome == Ok::<String, FormatterError>(text),
                Err(error) => outcome is Err && outcome->Err_0@
                    == (FormatterErrorView::InvalidUtf8 { program: program@, error: error@ }),
            }
        },
{
    if !success {
        return Err(
            FormatterError::Exit {
                program: program.to_string(),
                status,
                stderr: trim(stderr).to_string(),
            },
        );
    }
    match stdout {
        Ok(text) => Ok(text),
        Err(error) => Err(FormatterError::InvalidUtf8 { program: program.to_string(), error }),
    }
}

/// What comes of a program that has ended.
pub open spec fn is_exit_outcome(
    outcome: Result<String, FormatterError>,
    program: Seq<char>,
    exit: ProcessExit,
) -> bool {
    if !exit.success {
        outcome is Err && outcome->Err_0@ == (FormatterErrorView::Exit {
            program,
            status: exit.status@,
            stderr: trimmed(utf8_lossy(exit.stderr@)),
        })
    } else if valid_utf8(exit.stdout@) {
        outcome is Ok && outcome->Ok_0@ == decode_utf8(exit.stdout@)
    } else {
        outcome is Err && outcome->Err_0@ == (FormatterErrorView::InvalidUtf8 {
            program,
            error: utf8_error_text(exit.stdout@),
        })
    }
}

/// The run failed, with this error.
pub open spec fn fails_with(action: ProcessAction, error: FormatterErrorView) -> bool {
    &&& action is Return
    &&& action->Return_0 is Err
    &&& action->Return_0->Err_0@ == error
}

/// What follows each event in the run of a program: it is launched with its
/// arguments, the text is written to it if it takes input and made to reach it,
/// its input is closed, its end is waited for, and its output is what comes
/// out.
pub open spec fn is_process_step(
    action: ProcessAction,
    program: Seq<char>,
    arguments: Seq<Seq<char>>,
    source: Seq<char>,
    event: ProcessEvent,
) -> bool {
    match event {
        ProcessEvent::Requested => action is Launch && action->Launch_0@ == (program, arguments),
        ProcessEvent::Launched(Ok(true)) => action is Write && action->Write_0@ == source,
        ProcessEvent::Launched(Ok(false)) => action is Wait,
        ProcessEvent::Launched(Err(error)) => fails_with(
            action,
            FormatterErrorView::Spawn { program, error: error@ },
        ),
        ProcessEvent::Written(Ok(_)) => action is Flush,
        ProcessEvent::Written(Err(error)) => fails_with(
            action,
            FormatterErrorView::Stdin { program, error: error@ },
        ),
        ProcessEvent::Flushed(Ok(_)) => action is Close,
        ProcessEvent::Flushed(Err(error)) => fails_with(
            action,
            FormatterErrorView::Stdin { program, error: error@ },
        ),
        ProcessEvent::Closed => action is Wait,
        ProcessEvent::Exited(Ok(exit)) => action is Return && is_exit_outcome(
            action->Return_0,
            program,
            exit,
        ),
        ProcessEvent::Exited(Err(error)) => fails_with(
            action,
            FormatterErrorView::Spawn { program, error: error@ },
        ),
    }
}

/// A copy of several texts.
fn copied(texts: &[String]) -> (copy: Vec<String>)
    ensures
        views(copy@) == views(texts@),
{
    let mut copy: Vec<String> = Vec::new();
    let n = texts.len();
    let mut i: usize = 0;
    while i < n
        invariant
            i <= n,
            n == texts@.len(),
            views(copy@) == views(texts@).take(i as int),
        decreases n - i,
    {
        let ghost before = views(copy@);
        copy.push(texts[i].clone());
        proof {
            assert(views(copy@) =~= before.push(texts@[i as int]@));
            assert(views(texts@).take(i + 1) =~= before.push(texts@[i as int]@));
        }
        i += 1;
    }
    proof {
        assert(views(texts@).take(n as int) =~= views(texts@));
    }
    copy
}

/// Decides what to do with a program that is run on a text, given what has
/// happened to it.
pub fn run_formatter_command(
    program: &str,
    args: &[String],
    source: &str,
    event: ProcessEvent,
) -> (action: ProcessAction)
    ensures
        is_process_step(action, program@, views(args@), source@, event),
{
    match event {
        ProcessEvent::Requested => ProcessAction::Launch(
            FormatterCommand { program: program.to_string(), arguments: copied(args) },
        ),
        ProcessEvent::Launched(Ok(takes_input)) => {
            if takes_input {
                ProcessAction::Write(source.to_string())
            } else {
                ProcessAction::Wait
            }
        },
        ProcessEvent::Launched(Err(error)) => ProcessAction::Return(
            Err(FormatterError::Spawn { program: program.to_string(), error }),
        ),
        ProcessEvent::Written(Ok(_)) => ProcessAction::Flush,
        ProcessEvent::Written(Err(error)) => ProcessAction::Return(
            Err(FormatterError::Stdin { program: program.to_string(), error }),
        ),
        ProcessEvent::Flushed(Ok(_)) => ProcessAction::Close,
        ProcessEvent::Flushed(Err(error)) => ProcessAction::Return(
            Err(FormatterError::Stdin { program: program.to_string(), error }),
        ),
        ProcessEvent::Closed => ProcessAction::Wait,
        ProcessEvent::Exited(Ok(exit)) => {
            let stderr = utf8_text_lossy(exit.stderr.as_slice());
            let stdout = utf8_text(exit.stdout);
            ProcessAction::Return(
                formatter_outcome(program, exit.success, exit.status, stdout, stderr.as_str()),
            )
        },
        ProcessEvent::Exited(Err(error)) => ProcessAction::Return(
            Err(FormatterError::Spawn { program: program.to_string(), error }),
        ),
    }
}

} // verus!
