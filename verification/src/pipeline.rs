//! Compiling, then running: two processes, the second only after the first
//! has succeeded. The pipeline is a small machine. The caller runs the
//! command of the stage it is in, tells what came of it, and goes on until the
//! pipeline has finished in one of three ways.

use vstd::prelude::*;
use crate::quit::{quit, quit_line, Exit, ExitView};
use vstd::string::StringExecFns;
use crate::toolchain::Command;

verus! {

/// How a pipeline has finished.
#[derive(Debug, Clone, PartialEq, Eq)]
pub enum Outcome {
    /// The compiler failed; this is what it wrote to its error stream.
    CompileFailed(String),
    /// A process could not be started; this says why.
    LaunchFailed(String),
    /// The program ran and ended with this exit code.
    Completed(i32),
}

/// An outcome as its strings read.
pub enum OutcomeView {
    CompileFailed(Seq<char>),
    LaunchFailed(Seq<char>),
    Completed(i32),
}

impl View for Outcome {
    type V = OutcomeView;

    open spec fn view(&self) -> OutcomeView {
        match self {
            Outcome::CompileFailed(text) => OutcomeView::CompileFailed(text@),
            Outcome::LaunchFailed(why) => OutcomeView::LaunchFailed(why@),
            Outcome::Completed(code) => OutcomeView::Completed(*code),
        }
    }
}

/// Where a pipeline stands.
#[derive(Debug, Clone, PartialEq, Eq)]
pub enum Stage {
    /// The compiler is to be run.
    Compiling,
    /// The compiled program is to be run.
    Running,
    /// Nothing is left to run.
    Finished(Outcome),
}

/// A stage as its strings read.
pub enum StageView {
    Compiling,
    Running,
    Finished(OutcomeView),
}

impl View for Stage {
    type V = StageView;

    open spec fn view(&self) -> StageView {
        match self {
            Stage::Compiling => StageView::Compiling,
            Stage::Running => StageView::Running,
            Stage::Finished(outcome) => StageView::Finished(outcome@),
        }
    }
}

/// What came of running a command.
pub enum Event {
    /// The process ended: with this exit code, or without one where a signal
    /// ended it. `errors` is what it wrote to its error stream, where that
    /// was captured.
    Exited { code: Option<i32>, errors: String },
    /// The process could not be started; this says why.
    NotStarted(String),
}

/// An event as its strings read.
pub enum EventView {
    Exited { code: Option<i32>, errors: Seq<char> },
    NotStarted(Seq<char>),
}

impl View for Event {
    type V = EventView;

    open spec fn view(&self) -> EventView {
        match self {
            Event::Exited { code, errors } => EventView::Exited { code: *code, errors: errors@ },
            Event::NotStarted(why) => EventView::NotStarted(why@),
        }
    }
}

/// The exit code of a process that ended with `code`: its own code, and 1
/// where a signal ended it.
pub open spec fn code_of(code: Option<i32>) -> i32 {
    match code {
        Some(c) => c,
        None => 1,
    }
}

/// The stage after `event` in `stage`. A compiler that fails ends the
/// pipeline with its own words; one that succeeds lets the program run. The
/// program's exit code ends the pipeline. A process that cannot be started
/// ends it too. A finished pipeline stays as it is.
pub open spec fn next_stage(stage: StageView, event: EventView) -> StageView {
    match stage {
        StageView::Compiling => match event {
            EventView::Exited { code, errors } => if code == Some(0i32) {
                StageView::Running
            } else {
                StageView::Finished(OutcomeView::CompileFailed(errors))
            },
            EventView::NotStarted(why) => StageView::Finished(OutcomeView::LaunchFailed(why)),
        },
        StageView::Running => match event {
            EventView::Exited { code, errors } => StageView::Finished(
                OutcomeView::Completed(code_of(code)),
            ),
            EventView::NotStarted(why) => StageView::Finished(OutcomeView::LaunchFailed(why)),
        },
        StageView::Finished(outcome) => StageView::Finished(outcome),
    }
}

/// How the program named `program` ends after `outcome`: with the compiler's
/// words as they are and code 1; with a line of its own and code 1; or
/// silently with the code of the program it ran.
pub open spec fn exit_after(program: Seq<char>, outcome: OutcomeView) -> ExitView {
    match outcome {
        OutcomeView::CompileFailed(text) => ExitView { message: text, code: 1 },
        OutcomeView::LaunchFailed(why) => ExitView { message: quit_line(program, why), code: 1 },
        OutcomeView::Completed(code) => ExitView { message: Seq::empty(), code },
    }
}

/// The exit code that `event` tells of, if it tells of one.
pub open spec fn exit_code_in(event: EventView) -> Option<i32> {
    match event {
        EventView::Exited { code, errors } => code,
        EventView::NotStarted(why) => None,
    }
}

/// Whether a command is to be run in `stage`.
pub open spec fn runs(stage: StageView) -> bool {
    stage is Compiling || stage is Running
}

/// After a compiler that did not exit with code 0 nothing is run any more,
/// and the program ends with code 1 and the compiler's words, to the letter.
pub proof fn lemma_compile_failure_ends(program: Seq<char>, code: Option<i32>, errors: Seq<char>)
    requires
        code != Some(0i32),
    ensures
        ({
            let stage = next_stage(StageView::Compiling, EventView::Exited { code, errors });
            &&& !runs(stage)
            &&& stage == StageView::Finished(OutcomeView::CompileFailed(errors))
            &&& exit_after(program, OutcomeView::CompileFailed(errors)) == (ExitView {
                message: errors,
                code: 1,
            })
        }),
{
}

/// A finished pipeline stays finished, whatever is told to it.
pub proof fn lemma_finished_stays(outcome: OutcomeView, event: EventView)
    ensures
        next_stage(StageView::Finished(outcome), event) == StageView::Finished(outcome),
{
}

/// From its beginning, a pipeline ends with exit code 0 exactly when the
/// compiler exited with code 0 and then the program did.
pub proof fn lemma_success(program: Seq<char>, first: EventView, second: EventView)
    ensures
        ({
            let stage = next_stage(next_stage(StageView::Compiling, first), second);
            &&& stage is Finished
            &&& (exit_after(program, stage->Finished_0).code == 0 <==> exit_code_in(first) == Some(
                0i32,
            ) && exit_code_in(second) == Some(0i32))
        }),
{
}

/// What is said where `program` could not be started for the reason `why`.
pub open spec fn launch_failure(program: Seq<char>, why: Seq<char>) -> Seq<char> {
    "can't run "@ + program + ": "@ + why
}

/// The event that `command` could not be started for the reason `why`.
pub fn not_started(command: &Command, why: &str) -> (event: Event)
    ensures
        event@ == EventView::NotStarted(launch_failure(command.program@, why@)),
{
    let mut msg = String::from_str("can't run ");
    msg.append(command.program.as_str());
    msg.append(": ");
    msg.append(why);
    Event::NotStarted(msg)
}

/// Where a pipeline begins.
pub fn start() -> (stage: Stage)
    ensures
        stage@ == StageView::Compiling,
{
    Stage::Compiling
}

/// The stage after `event` in `stage`.
pub fn advance(stage: Stage, event: Event) -> (next: Stage)
    ensures
        next@ == next_stage(stage@, event@),
{
    match stage {
        Stage::Compiling => match event {
            Event::Exited { code, errors } => match code {
                Some(0) => Stage::Running,
                _ => Stage::Finished(Outcome::CompileFailed(errors)),
            },
            Event::NotStarted(why) => Stage::Finished(Outcome::LaunchFailed(why)),
        },
        Stage::Running => match event {
            Event::Exited { code, errors } => match code {
                Some(c) => Stage::Finished(Outcome::Completed(c)),
                None => Stage::Finished(Outcome::Completed(1)),
            },
            Event::NotStarted(why) => Stage::Finished(Outcome::LaunchFailed(why)),
        },
        Stage::Finished(outcome) => Stage::Finished(outcome),
    }
}

/// The command to run in `stage`, if there is one: `compile` first, then
/// `run`.
pub fn pending<'a>(
    stage: &Stage,
    compile: &'a Command,
    run: &'a Command,
) -> (r: Option<&'a Command>)
    ensures
        match stage@ {
            StageView::Compiling => r == Some(compile),
            StageView::Running => r == Some(run),
            StageView::Finished(_) => r is None,
        },
{
    match stage {
        Stage::Compiling => Some(compile),
        Stage::Running => Some(run),
        Stage::Finished(_) => None,
    }
}

/// How the program named `program` ends after `outcome`.
pub fn exit_of(program: &str, outcome: &Outcome) -> (x: Exit)
    ensures
        x@ == exit_after(program@, outcome@),
{
    match outcome {
        Outcome::CompileFailed(text) => Exit { message: text.clone(), code: 1 },
        Outcome::LaunchFailed(why) => quit(program, why.as_str()),
        Outcome::Completed(code) => Exit { message: String::new(), code: *code },
    }
}

} // verus!
