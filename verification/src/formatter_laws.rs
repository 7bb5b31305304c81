//! What holds of whole runs of formatters.

use vstd::prelude::*;
use vstd::utf8::{decode_utf8, valid_utf8};

use crate::bytes::{utf8_error_text, utf8_lossy};
use crate::extension::{release_tag_text, server_path_text, SERVER_BINARY_NAME};
use crate::formatter::{
    bundled_path, candidates, directory_part, formatter_error_text, formatter_program,
    is_formatter_step, is_process_step, not_launched, tries_next, FormatterAction,
    FormatterCommand, FormatterError, FormatterErrorView, FormatterEvent, ProcessAction,
    ProcessEvent, ProcessExit, FORMATTER_BINARY,
};
use crate::settings::{effective, FormatterSettings};
use crate::settings_laws::{is_set, settings_count_where_they_are_set};
use crate::text::{trimmed, views};

verus! {

// ---------------------------------------------------------------------------
// The choice of a formatter
// ---------------------------------------------------------------------------

/// What comes out where the candidates from `tried` on would have these
/// outcomes.
pub open spec fn formatter_result(
    outcomes: Seq<Result<String, FormatterError>>,
    tried: int,
) -> Result<String, FormatterError>
    decreases outcomes.len() - tried,
{
    if tries_next(outcomes.len() as int, tried + 1, outcomes[tried]) {
        formatter_result(outcomes, tried + 1)
    } else {
        outcomes[tried]
    }
}

/// The first program that can be launched decides, whatever it does; where
/// none can, the failure of the last stands.
pub proof fn first_launched_formatter_decides(
    outcomes: Seq<Result<String, FormatterError>>,
    launched: int,
)
    requires
        0 <= launched < outcomes.len(),
        forall|i: int| 0 <= i < launched ==> not_launched(#[trigger] outcomes[i]),
        !not_launched(outcomes[launched]) || launched + 1 == outcomes.len(),
    ensures
        formatter_result(outcomes, 0) == outcomes[launched],
{
    lemma_formatter_result(outcomes, 0, launched);
}

proof fn lemma_formatter_result(
    outcomes: Seq<Result<String, FormatterError>>,
    tried: int,
    launched: int,
)
    requires
        0 <= tried <= launched < outcomes.len(),
        forall|i: int| 0 <= i < launched ==> not_launched(#[trigger] outcomes[i]),
        !not_launched(outcomes[launched]) || launched + 1 == outcomes.len(),
    ensures
        formatter_result(outcomes, tried) == outcomes[launched],
    decreases launched - tried,
{
    if tried < launched {
        lemma_formatter_result(outcomes, tried + 1, launched);
    }
}

/// A formatter that the settings name is the only one that is run.
pub proof fn configured_formatter_is_the_only_one(
    settings: FormatterSettings,
    bundled: Option<Seq<char>>,
)
    requires
        effective(settings.path) is Some,
    ensures
        candidates(settings, bundled) == seq![
            (effective(settings.path)->0, views(settings.arguments@)),
        ],
{
}

/// The events and actions of formatting a text from the request to the result,
/// where the candidates have these outcomes.
pub open spec fn formatter_course(
    actions: Seq<FormatterAction>,
    events: Seq<FormatterEvent>,
    programs: Seq<(Seq<char>, Seq<Seq<char>>)>,
    outcomes: Seq<Result<String, FormatterError>>,
) -> bool {
    &&& actions.len() == events.len()
    &&& actions.len() > 0
    &&& outcomes.len() == programs.len()
    &&& events[0] is Requested
    &&& forall|k: int|
        0 <= k < actions.len() ==> is_formatter_step(#[trigger] actions[k], programs, events[k])
    &&& forall|k: int|
        0 <= k < actions.len() - 1 ==> (#[trigger] actions[k]) is Run && formatter_answer(
            actions[k],
            events[k + 1],
            outcomes,
        )
    &&& actions.last() is Return
}

/// The event tells how the candidate fared that the action ran.
pub open spec fn formatter_answer(
    action: FormatterAction,
    event: FormatterEvent,
    outcomes: Seq<Result<String, FormatterError>>,
) -> bool {
    &&& event is Ran
    &&& event->Ran_tried == action->tried + 1
    &&& event->outcome == outcomes[action->tried as int]
}

/// Each candidate is run in its turn.
proof fn lemma_formatter_course(
    actions: Seq<FormatterAction>,
    events: Seq<FormatterEvent>,
    programs: Seq<(Seq<char>, Seq<Seq<char>>)>,
    outcomes: Seq<Result<String, FormatterError>>,
    k: int,
)
    requires
        formatter_course(actions, events, programs, outcomes),
        programs.len() > 0,
        0 <= k < actions.len() - 1,
    ensures
        k < programs.len(),
        actions[k].runs(k, programs),
        formatter_result(outcomes, 0) == formatter_result(outcomes, k),
    decreases k,
{
    assert(is_formatter_step(actions[k], programs, events[k]));
    if k > 0 {
        lemma_formatter_course(actions, events, programs, outcomes, k - 1);
        assert(formatter_answer(actions[k - 1], events[k - 1 + 1], outcomes));
        assert(actions[k] is Run);
    }
}

/// A text is formatted by running the candidates in their order until one is
/// launched or none is left, and what that one gives comes out.
pub proof fn formatting_runs_candidates_in_order(
    actions: Seq<FormatterAction>,
    events: Seq<FormatterEvent>,
    settings: FormatterSettings,
    bundled: Option<Seq<char>>,
    outcomes: Seq<Result<String, FormatterError>>,
)
    requires
        formatter_course(actions, events, candidates(settings, bundled), outcomes),
    ensures
        1 <= actions.len() - 1 <= candidates(settings, bundled).len(),
        forall|k: int|
            0 <= k < actions.len() - 1 ==> (#[trigger] actions[k]).runs(
                k,
                candidates(settings, bundled),
            ),
        actions.last()->Return_0 == outcomes[actions.len() - 2],
        actions.last()->Return_0 == formatter_result(outcomes, 0),
{
    let programs = candidates(settings, bundled);
    let last = actions.len() - 1;
    assert(is_formatter_step(actions[last], programs, events[last]));
    assert(is_formatter_step(actions[0], programs, events[0]));
    assert forall|k: int| 0 <= k < last implies (#[trigger] actions[k]).runs(k, programs) by {
        lemma_formatter_course(actions, events, programs, outcomes, k);
    }
    assert(last > 0);
    lemma_formatter_course(actions, events, programs, outcomes, last - 1);
    assert(formatter_answer(actions[last - 1], events[last - 1 + 1], outcomes));
}

/// The first program that can be launched decides, whatever else becomes of it;
/// only a program that could not be launched is passed over.
pub proof fn only_launch_failures_are_passed_over(
    action: FormatterAction,
    programs: Seq<(Seq<char>, Seq<Seq<char>>)>,
    tried: usize,
    outcome: Result<String, FormatterError>,
)
    requires
        is_formatter_step(action, programs, FormatterEvent::Ran { tried, outcome }),
    ensures
        if outcome is Err && outcome->Err_0 is Spawn && tried < programs.len() {
            &&& action is Run
            &&& action->tried == tried
            &&& action->command.program@ == programs[tried as int].0
            &&& views(action->command.arguments@) == programs[tried as int].1
        } else {
            action is Return && action->Return_0 == outcome
        },
{
}

/// Formatting starts with the first program.
pub proof fn first_candidate_is_run_first(
    action: FormatterAction,
    programs: Seq<(Seq<char>, Seq<Seq<char>>)>,
)
    requires
        is_formatter_step(action, programs, FormatterEvent::Requested),
    ensures
        action is Run,
        action->tried == 0,
        action->command.program@ == programs[0].0,
        views(action->command.arguments@) == programs[0].1,
{
}

/// A formatter in the settings is the only one that is run, with the arguments
/// of the settings.
pub proof fn set_formatter_is_run_alone(
    settings: FormatterSettings,
    bundled: Option<Seq<char>>,
)
    requires
        is_set(settings.path),
    ensures
        candidates(settings, bundled).len() == 1,
        candidates(settings, bundled)[0].0 == trimmed(settings.path->0@),
        candidates(settings, bundled)[0].1 == views(settings.arguments@),
        formatter_program(settings) == trimmed(settings.path->0@),
{
    settings_count_where_they_are_set(settings.path);
}

/// Where the settings name no formatter, the last two candidates are
/// `c_formatter_42` with the arguments of the settings and the Python module of
/// that name, whatever the arguments are. A bundled formatter comes before
/// them, with the same arguments.
pub proof fn formatter_is_looked_for(settings: FormatterSettings, bundled: Option<Seq<char>>)
    requires
        !is_set(settings.path),
    ensures
        ({
            let programs = candidates(settings, bundled);
            let n = programs.len() as int;
            &&& n == if bundled is Some {
                3int
            } else {
                2
            }
            &&& programs[n - 1].0 == "python3"@
            &&& programs[n - 1].1.len() == 2
            &&& programs[n - 1].1[0] == "-m"@
            &&& programs[n - 1].1[1] == "c_formatter_42"@
            &&& programs[n - 2].0 == "c_formatter_42"@
            &&& programs[n - 2].1 == views(settings.arguments@)
            &&& bundled is Some ==> programs[0].0 == bundled->0 && programs[0].1 == views(
                settings.arguments@,
            )
        }),
        formatter_program(settings) == "c_formatter_42"@,
{
    settings_count_where_they_are_set(settings.path);
}

/// Where the settings name no formatter and `c_formatter_42` cannot be launched,
/// what the Python module gives comes out.
pub proof fn python_module_stands_in(
    actions: Seq<FormatterAction>,
    events: Seq<FormatterEvent>,
    settings: FormatterSettings,
    outcomes: Seq<Result<String, FormatterError>>,
)
    requires
        formatter_course(actions, events, candidates(settings, None), outcomes),
        !is_set(settings.path),
        outcomes[0] is Err && outcomes[0]->Err_0 is Spawn,
    ensures
        outcomes.len() == 2,
        actions.len() == 3,
        actions[1]->command.program@ == "python3"@,
        actions.last()->Return_0 == outcomes[1],
{
    let programs = candidates(settings, None);
    formatter_is_looked_for(settings, None);
    formatting_runs_candidates_in_order(actions, events, settings, None, outcomes);
    assert(is_formatter_step(actions[0], programs, events[0]));
    assert(formatter_answer(actions[0], events[1], outcomes)) by {
        assert(actions[0] is Run);
    }
    assert(is_formatter_step(actions[1], programs, events[1]));
}

/// Where `c_formatter_42` can be launched, nothing else is run, and what it
/// gives comes out.
pub proof fn launched_formatter_is_the_only_one(
    actions: Seq<FormatterAction>,
    events: Seq<FormatterEvent>,
    settings: FormatterSettings,
    bundled: Option<Seq<char>>,
    outcomes: Seq<Result<String, FormatterError>>,
)
    requires
        formatter_course(actions, events, candidates(settings, bundled), outcomes),
        !(outcomes[0] is Err && outcomes[0]->Err_0 is Spawn),
    ensures
        actions.len() == 2,
        actions.last()->Return_0 == outcomes[0],
{
    let programs = candidates(settings, bundled);
    formatting_runs_candidates_in_order(actions, events, settings, bundled, outcomes);
    assert(is_formatter_step(actions[0], programs, events[0]));
    assert(formatter_answer(actions[0], events[1], outcomes)) by {
        assert(actions[0] is Run);
    }
    assert(is_formatter_step(actions[1], programs, events[1]));
}

/// The formatter that is bundled with a server lies in its directory, under its
/// own name.
pub proof fn bundled_formatter_lies_in_the_directory(directory: Seq<char>, name: Seq<char>)
    requires
        directory.len() == 0 || directory.last() == '/',
        !name.contains('/'),
    ensures
        bundled_path(directory + name) == directory + "c_formatter_42"@,
{
    assert forall|i: int| 0 <= i < name.len() implies #[trigger] name[i] != '/' by {
        assert(name.contains(name[i]));
    }
    lemma_directory_part(directory, name);
}

/// The formatter that is bundled with the installed server lies in its
/// directory.
pub proof fn bundled_formatter_lies_beside_the_server()
    ensures
        bundled_path(server_path_text()) == release_tag_text() + "/"@ + FORMATTER_BINARY@,
{
    reveal_strlit("/");
    reveal_strlit("forty-two-tools-lsp");
    let directory = release_tag_text() + "/"@;
    assert(directory.last() == '/');
    lemma_directory_part(directory, SERVER_BINARY_NAME@);
    assert(server_path_text() =~= directory + SERVER_BINARY_NAME@);
}

/// The directory of a file is what stands before its name.
proof fn lemma_directory_part(directory: Seq<char>, name: Seq<char>)
    requires
        directory.len() == 0 || directory.last() == '/',
        forall|i: int| 0 <= i < name.len() ==> #[trigger] name[i] != '/',
    ensures
        directory_part(directory + name) == directory,
    decreases name.len(),
{
    if name.len() == 0 {
        assert(directory + name =~= directory);
    } else {
        assert((directory + name).drop_last() =~= directory + name.drop_last());
        assert((directory + name).last() == name[name.len() - 1]);
        lemma_directory_part(directory, name.drop_last());
    }
}

// ---------------------------------------------------------------------------
// The run of one program
// ---------------------------------------------------------------------------

/// The event tells what came of the action.
pub open spec fn process_answer(action: ProcessAction, event: ProcessEvent) -> bool {
    match action {
        ProcessAction::Launch(_) => event is Launched,
        ProcessAction::Write(_) => event is Written,
        ProcessAction::Flush => event is Flushed,
        ProcessAction::Close => event is Closed,
        ProcessAction::Wait => event is Exited,
        ProcessAction::Return(_) => false,
    }
}

/// The events and actions of the run of a program from the request to the
/// result.
pub open spec fn process_course(
    actions: Seq<ProcessAction>,
    events: Seq<ProcessEvent>,
    program: Seq<char>,
    arguments: Seq<Seq<char>>,
    source: Seq<char>,
) -> bool {
    &&& actions.len() == events.len()
    &&& actions.len() > 0
    &&& events[0] is Requested
    &&& forall|k: int|
        0 <= k < actions.len() ==> is_process_step(
            #[trigger] actions[k],
            program,
            arguments,
            source,
            events[k],
        )
    &&& forall|k: int|
        0 <= k < actions.len() - 1 ==> process_answer(#[trigger] actions[k], events[k + 1])
    &&& actions.last() is Return
}

/// Something went wrong with the program.
pub open spec fn is_failure(event: ProcessEvent) -> bool {
    match event {
        ProcessEvent::Launched(outcome) => outcome is Err,
        ProcessEvent::Written(outcome) => outcome is Err,
        ProcessEvent::Flushed(outcome) => outcome is Err,
        ProcessEvent::Exited(outcome) => outcome is Err,
        _ => false,
    }
}

/// The program that an error speaks of.
pub open spec fn error_program(error: FormatterErrorView) -> Seq<char> {
    match error {
        FormatterErrorView::Spawn { program, .. } => program,
        FormatterErrorView::Stdin { program, .. } => program,
        FormatterErrorView::Exit { program, .. } => program,
        FormatterErrorView::InvalidUtf8 { program, .. } => program,
    }
}

/// The program has ended well, and what it wrote is text.
pub open spec fn ends_well(event: ProcessEvent) -> bool {
    event is Exited && event->Exited_0 is Ok && event->Exited_0->Ok_0.success && valid_utf8(
        event->Exited_0->Ok_0.stdout@,
    )
}

/// The steps of a run, one by one.
proof fn lemma_process_course(
    actions: Seq<ProcessAction>,
    events: Seq<ProcessEvent>,
    program: Seq<char>,
    arguments: Seq<Seq<char>>,
    source: Seq<char>,
)
    requires
        process_course(actions, events, program, arguments, source),
    ensures
        2 <= actions.len() <= 6,
        actions[0] is Launch,
        events[1] is Launched,
        events[1] == ProcessEvent::Launched(Ok(true)) ==> {
            &&& actions.len() > 2
            &&& actions[1] is Write
            &&& events[2] is Written
            &&& actions.len() > 3 ==> {
                &&& actions[2] is Flush
                &&& events[3] is Flushed
            }
            &&& actions.len() > 4 ==> {
                &&& actions.len() == 6
                &&& actions[3] is Close
                &&& events[4] is Closed
                &&& actions[4] is Wait
                &&& events[5] is Exited
            }
        },
        events[1] == ProcessEvent::Launched(Ok(false)) ==> actions.len() == 3 && actions[1] is Wait
            && events[2] is Exited,
        events[1]->Launched_0 is Err ==> actions.len() == 2,
{
    let n = actions.len() as int;
    assert(is_process_step(actions[0], program, arguments, source, events[0]));
    assert(process_answer(actions[0], events[1]));
    assert(is_process_step(actions[1], program, arguments, source, events[1]));
    if n > 2 {
        assert(process_answer(actions[1], events[2]));
        assert(is_process_step(actions[2], program, arguments, source, events[2]));
    }
    if n > 3 {
        assert(process_answer(actions[2], events[3]));
        assert(is_process_step(actions[3], program, arguments, source, events[3]));
    }
    if n > 4 {
        assert(process_answer(actions[3], events[4]));
        assert(is_process_step(actions[4], program, arguments, source, events[4]));
    }
    if n > 5 {
        assert(process_answer(actions[4], events[5]));
        assert(is_process_step(actions[5], program, arguments, source, events[5]));
    }
    if n > 6 {
        assert(process_answer(actions[5], events[6]));
    }
}

/// A program is launched with its arguments, in order. One that takes input
/// and is waited for was given the text and nothing else, and then the end of
/// its input.
pub proof fn program_is_given_the_text(
    actions: Seq<ProcessAction>,
    events: Seq<ProcessEvent>,
    program: Seq<char>,
    arguments: Seq<Seq<char>>,
    source: Seq<char>,
)
    requires
        process_course(actions, events, program, arguments, source),
    ensures
        actions[0] is Launch && actions[0]->Launch_0@ == (program, arguments),
        forall|k: int|
            0 <= k < actions.len() ==> ((#[trigger] actions[k]) is Launch ==> k == 0),
        forall|k: int|
            0 <= k < actions.len() ==> ((#[trigger] actions[k]) is Write ==> k == 1
                && actions[k]->Write_0@ == source),
        events[1] == ProcessEvent::Launched(Ok(true)) && events.last() is Exited ==> actions.len()
            == 6 && actions[1] is Write && actions[2] is Flush && actions[3] is Close
            && actions[4] is Wait,
{
    lemma_process_course(actions, events, program, arguments, source);
    assert(is_process_step(actions[0], program, arguments, source, events[0]));
    assert forall|k: int| 0 <= k < actions.len() implies ((#[trigger] actions[k]) is Launch ==> k
        == 0) && (actions[k] is Write ==> k == 1 && actions[k]->Write_0@ == source) by {
        assert(is_process_step(actions[k], program, arguments, source, events[k]));
        assert(k == 0 || k == 1 || k == 2 || k == 3 || k == 4 || k == 5);
    }
}

/// A run gives a text exactly where nothing went wrong, the program ended well
/// and what it wrote is text; that is then the text. Each error speaks of the
/// program.
pub proof fn run_succeeds_where_nothing_fails(
    actions: Seq<ProcessAction>,
    events: Seq<ProcessEvent>,
    program: Seq<char>,
    arguments: Seq<Seq<char>>,
    source: Seq<char>,
)
    requires
        process_course(actions, events, program, arguments, source),
    ensures
        actions.last()->Return_0 is Ok <==> ends_well(events.last()) && forall|k: int|
            0 <= k < events.len() ==> !is_failure(#[trigger] events[k]),
        actions.last()->Return_0 is Ok ==> actions.last()->Return_0->Ok_0@ == decode_utf8(
            events.last()->Exited_0->Ok_0.stdout@,
        ),
        actions.last()->Return_0 is Err ==> error_program(actions.last()->Return_0->Err_0@)
            == program,
{
    lemma_process_course(actions, events, program, arguments, source);
    let n = actions.len() as int;
    assert(is_process_step(actions[n - 1], program, arguments, source, events[n - 1]));
    assert forall|k: int| 0 <= k < n && is_failure(#[trigger] events[k]) implies k == n - 1 by {
        assert(is_process_step(actions[k], program, arguments, source, events[k]));
        if k < n - 1 {
            assert(process_answer(actions[k], events[k + 1]));
        }
    }
}

/// Each failure of a program has its own error, which carries the reason.
pub proof fn failures_are_told_apart(
    action: ProcessAction,
    program: Seq<char>,
    arguments: Seq<Seq<char>>,
    source: Seq<char>,
    event: ProcessEvent,
)
    requires
        is_process_step(action, program, arguments, source, event),
        is_failure(event),
    ensures
        action is Return,
        action->Return_0 is Err,
        match event {
            ProcessEvent::Launched(Err(error)) => action->Return_0->Err_0@
                == (FormatterErrorView::Spawn { program, error: error@ }),
            ProcessEvent::Written(Err(error)) => action->Return_0->Err_0@
                == (FormatterErrorView::Stdin { program, error: error@ }),
            ProcessEvent::Flushed(Err(error)) => action->Return_0->Err_0@
                == (FormatterErrorView::Stdin { program, error: error@ }),
            ProcessEvent::Exited(Err(error)) => action->Return_0->Err_0@
                == (FormatterErrorView::Spawn { program, error: error@ }),
            _ => true,
        },
{
}

/// A program that ended badly is an error with its status and with what it
/// complained of, without the white space around it. What it wrote does not
/// matter.
pub proof fn bad_end_is_an_error(
    action: ProcessAction,
    program: Seq<char>,
    arguments: Seq<Seq<char>>,
    source: Seq<char>,
    exit: ProcessExit,
)
    requires
        is_process_step(action, program, arguments, source, ProcessEvent::Exited(Ok(exit))),
    ensures
        action is Return,
        !exit.success ==> action->Return_0 is Err && action->Return_0->Err_0@
            == (FormatterErrorView::Exit {
            program,
            status: exit.status@,
            stderr: trimmed(utf8_lossy(exit.stderr@)),
        }),
        exit.success && valid_utf8(exit.stdout@) ==> action->Return_0 is Ok
            && action->Return_0->Ok_0@ == decode_utf8(exit.stdout@),
        exit.success && !valid_utf8(exit.stdout@) ==> action->Return_0 is Err
            && action->Return_0->Err_0@ == (FormatterErrorView::InvalidUtf8 {
            program,
            error: utf8_error_text(exit.stdout@),
        }),
{
}

/// What the user is told names the program and the reason.
pub proof fn messages_name_program_and_reason(
    program: Seq<char>,
    error: Seq<char>,
    status: Seq<char>,
    stderr: Seq<char>,
)
    ensures
        formatter_error_text(FormatterErrorView::Spawn { program, error }) == "failed to launch `"@
            + program + "`: "@ + error,
        formatter_error_text(FormatterErrorView::Stdin { program, error })
            == "failed to stream text to `"@ + program + "`: "@ + error,
        formatter_error_text(FormatterErrorView::Exit { program, status, stderr }) == "`"@ + program
            + "` exited unsuccessfully: "@ + status + (if stderr.len() > 0 {
            "; stderr: "@ + stderr
        } else {
            seq![]
        }),
        formatter_error_text(FormatterErrorView::InvalidUtf8 { program, error }) == "`"@ + program
            + "` produced invalid UTF-8 output: "@ + error,
{
    let told = formatter_error_text(FormatterErrorView::Exit { program, status, stderr });
    if stderr.len() > 0 {
        assert(told =~= "`"@ + program + "` exited unsuccessfully: "@ + status + ("; stderr: "@
            + stderr));
    } else {
        assert(told =~= "`"@ + program + "` exited unsuccessfully: "@ + status + seq![]);
    }
}

/// A formatter error by the characters of what it holds.
pub proof fn error_by_its_characters(error: FormatterError)
    ensures
        match error {
            FormatterError::Spawn { program, error: reason } => error@
                == (FormatterErrorView::Spawn { program: program@, error: reason@ }),
            FormatterError::Stdin { program, error: reason } => error@
                == (FormatterErrorView::Stdin { program: program@, error: reason@ }),
            FormatterError::Exit { program, status, stderr } => error@
                == (FormatterErrorView::Exit {
                program: program@,
                status: status@,
                stderr: stderr@,
            }),
            FormatterError::InvalidUtf8 { program, error: reason } => error@
                == (FormatterErrorView::InvalidUtf8 { program: program@, error: reason@ }),
        },
{
}

/// A program with its arguments by their characters.
pub proof fn command_by_its_characters(command: FormatterCommand)
    ensures
        command@.0 == command.program@,
        command@.1.len() == command.arguments@.len(),
        forall|i: int|
            0 <= i < command.arguments@.len() ==> #[trigger] command@.1[i]
                == command.arguments@[i]@,
{
}

/// What follows each event that is no failure.
pub proof fn run_goes_step_by_step(
    action: ProcessAction,
    program: Seq<char>,
    arguments: Seq<Seq<char>>,
    source: Seq<char>,
    event: ProcessEvent,
)
    requires
        is_process_step(action, program, arguments, source, event),
        !is_failure(event),
    ensures
        match event {
            ProcessEvent::Requested => action is Launch && action->Launch_0.program@ == program
                && views(action->Launch_0.arguments@) == arguments,
            ProcessEvent::Launched(launched) => if launched->Ok_0 {
                action is Write && action->Write_0@ == source
            } else {
                action is Wait
            },
            ProcessEvent::Written(_) => action is Flush,
            ProcessEvent::Flushed(_) => action is Close,
            ProcessEvent::Closed => action is Wait,
            ProcessEvent::Exited(_) => action is Return,
        },
{
}

} // verus!
