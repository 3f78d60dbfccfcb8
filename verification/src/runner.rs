//! Running a script: from the script's text and the prelude to the program
//! that is compiled, the place it is written to and the commands that compile
//! and run it.

use vstd::prelude::*;
use crate::analysis::{analysis_of, analyze};
use crate::cache::CacheLayout;
use crate::quit::{Error, ErrorView};
use crate::rules::{standard_rules, views};
use crate::synth::{program, synthesize};
use crate::toolchain::{
    artifact_of, compile_args, compile_command, library_path, library_path_of, run_command,
    scratch_paths, scratch_source, Command, CommandView, Script,
};

verus! {

/// What is to be written, compiled and run for a script.
pub struct Job {
    /// Where the program is written.
    pub source: String,
    /// The program.
    pub text: String,
    /// Where the compiler puts what it makes of the program.
    pub artifact: String,
    /// The command that compiles the program.
    pub compile: Command,
    /// The arguments that are handed on to the program.
    pub forwarded: Vec<String>,
}

/// A job as its strings read.
pub struct JobView {
    pub source: Seq<char>,
    pub text: Seq<char>,
    pub artifact: Seq<char>,
    pub compile: CommandView,
    pub forwarded: Seq<Seq<char>>,
}

impl View for Job {
    type V = JobView;

    open spec fn view(&self) -> JobView {
        JobView {
            source: self.source@,
            text: self.text@,
            artifact: self.artifact@,
            compile: self.compile@,
            forwarded: views(self.forwarded@),
        }
    }
}

/// The job for the script at `path` that reads `text`: its program by the
/// standard rules, written below the scratch directory and compiled against
/// the libraries in `artifacts`. There is none where the analysis fails.
pub open spec fn job_for(
    path: Seq<char>,
    forwarded: Seq<Seq<char>>,
    text: Seq<char>,
    prelude: Seq<char>,
    artifacts: Seq<char>,
) -> Result<JobView, ErrorView> {
    match analysis_of(standard_rules(), text) {
        Err(e) => Err(ErrorView::Parse(e)),
        Ok(a) => Ok(
            JobView {
                source: scratch_source(path),
                text: program(standard_rules(), text, a, prelude),
                artifact: artifact_of(scratch_source(path)),
                compile: CommandView {
                    program: "rustc"@,
                    args: compile_args(
                        artifacts,
                        a.declared_external_deps,
                        scratch_source(path),
                        artifact_of(scratch_source(path)),
                    ),
                    env: Seq::empty(),
                },
                forwarded,
            },
        ),
    }
}

/// The job for `script`, whose file reads `text`.
pub fn prepare(script: Script, text: &str, prelude: &str, layout: &CacheLayout) -> (r: Result<
    Job,
    Error,
>)
    ensures
        match r {
            Ok(job) => job_for(
                script.path@,
                views(script.forwarded@),
                text@,
                prelude@,
                layout.artifacts@,
            ) == Ok::<JobView, ErrorView>(job@),
            Err(e) => job_for(
                script.path@,
                views(script.forwarded@),
                text@,
                prelude@,
                layout.artifacts@,
            ) == Err::<JobView, ErrorView>(e@),
        },
{
    match analyze(text) {
        Err(e) => Err(Error::Parse(e)),
        Ok(analysis) => {
            let program = synthesize(text, &analysis, prelude);
            let (source, artifact) = scratch_paths(script.path.as_str());
            let compile = compile_command(
                layout.artifacts.as_str(),
                &analysis.declared_external_deps,
                source.as_str(),
                artifact.as_str(),
            );
            Ok(Job { source, text: program, artifact, compile, forwarded: script.forwarded })
        },
    }
}

/// The command that runs what `job` has compiled, given the directory
/// `sysroot` of the toolchain: the arguments are handed on as they are, and
/// shared libraries are looked for in the toolchain's library directory and
/// in `artifacts`.
pub fn run_of(job: &Job, sysroot: &str, layout: &CacheLayout) -> (c: Command)
    ensures
        c@ == (CommandView {
            program: job.artifact@,
            args: views(job.forwarded@),
            env: seq![("LD_LIBRARY_PATH"@, library_path_of(sysroot@, layout.artifacts@))],
        }),
{
    let libraries = library_path(sysroot, layout.artifacts.as_str());
    run_command(job.artifact.as_str(), &job.forwarded, libraries.as_str())
}

} // verus!
