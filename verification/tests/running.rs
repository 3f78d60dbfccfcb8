use easy_shortcuts::cache::{cache_layout, ensure_cache, step_failed, CacheSeen, FsStep};
use easy_shortcuts::pipeline::{
    advance, exit_of, not_started, pending, start, Event, Outcome, Stage,
};
use easy_shortcuts::quit::Error;
use easy_shortcuts::runner::{prepare, run_of};
use easy_shortcuts::toolchain::{
    check_script, compile_command, library_path, run_command, scratch_paths, Script,
};

const PRELUDE: &str = "#![allow(unused_imports)]\n#![allow(dead_code)]\n#![allow(redundant_semicolons)]\nuse std::io::prelude::*;\n\nmacro_rules! debug {\n    ($x:expr) => {\n        println!(\"{} = {:?}\",stringify!($x),$x);\n    }\n}\n\n";

fn strings(words: &[&str]) -> Vec<String> {
    words.iter().map(|w| w.to_string()).collect()
}

fn exited(code: i32, errors: &str) -> Event {
    Event::Exited { code: Some(code), errors: errors.to_string() }
}

#[test]
fn a_script_and_what_is_handed_on() {
    let script = check_script(&strings(&["run", "hello.rs", "-v", "--", "x y"])).ok().unwrap();
    assert_eq!(script.path, "hello.rs");
    assert_eq!(script.forwarded, strings(&["-v", "--", "x y"]));
    let script = check_script(&strings(&["run", "dir.d/a.b.rs"])).ok().unwrap();
    assert_eq!(script.path, "dir.d/a.b.rs");
    assert!(script.forwarded.is_empty());
}

#[test]
fn another_extension_is_a_usage_error() {
    for path in ["hello.py", "hello.rs.txt", "hello.r", "hello.rss", "hello.", "a.rs/b.RS"] {
        let e = check_script(&strings(&["run", path])).err();
        assert_eq!(e, Some(Error::Usage("file extension must be .rs".to_string())));
    }
}

#[test]
fn no_extension_is_a_usage_error() {
    for path in ["hello", "dir.rs/hello", ".rs", "dir/.rs", ""] {
        let e = check_script(&strings(&["run", path])).err();
        assert_eq!(e, Some(Error::Usage("no file extension".to_string())));
    }
}

#[test]
fn no_script_is_a_usage_error() {
    let e = check_script(&strings(&["run"])).err();
    assert_eq!(e, Some(Error::Usage("no argument 1: please supply a source file".to_string())));
    assert!(check_script(&Vec::new()).is_err());
}

#[test]
fn the_scratch_paths_mirror_the_script() {
    assert_eq!(scratch_paths("hello.rs"), ("temp/hello.rs".to_string(), "temp/hello".to_string()));
    assert_eq!(
        scratch_paths("examples/v1.2/run.rs"),
        ("temp/examples/v1.2/run.rs".to_string(), "temp/examples/v1.2/run".to_string())
    );
    assert_eq!(scratch_paths("plain"), ("temp/plain".to_string(), "temp/plain".to_string()));
}

#[test]
fn the_compile_command() {
    let c = compile_command("/c/dy-cache", &Vec::new(), "temp/x.rs", "temp/x");
    assert_eq!(c.program, "rustc");
    assert_eq!(
        c.args,
        strings(&["-C", "prefer-dynamic", "-C", "debuginfo=0", "-L", "/c/dy-cache", "-o", "temp/x", "temp/x.rs"])
    );
    assert!(c.env.is_empty());
}

#[test]
fn each_dependency_is_linked_from_the_cache() {
    let c = compile_command("/c", &strings(&["time", "serde_json"]), "temp/x.rs", "temp/x");
    assert_eq!(
        c.args,
        strings(&[
            "-C", "prefer-dynamic", "-C", "debuginfo=0", "-L", "/c",
            "--extern", "time=/c/libtime.so",
            "--extern", "serde_json=/c/libserde_json.so",
            "-o", "temp/x", "temp/x.rs",
        ])
    );
}

#[test]
fn the_run_command_hands_the_arguments_on() {
    let libraries = library_path("/opt/rust", "/c/dy-cache");
    assert_eq!(libraries, "/opt/rust/lib:/c/dy-cache");
    let c = run_command("temp/x", &strings(&["a", "", "--b=c d"]), &libraries);
    assert_eq!(c.program, "temp/x");
    assert_eq!(c.args, strings(&["a", "", "--b=c d"]));
    assert_eq!(c.env, vec![("LD_LIBRARY_PATH".to_string(), "/opt/rust/lib:/c/dy-cache".to_string())]);
}

#[test]
fn the_cache_lies_below_the_configuration_directory() {
    let layout = cache_layout("/home/u/.cargo");
    assert_eq!(layout.root, "/home/u/.cargo/runner");
    assert_eq!(layout.prelude, "/home/u/.cargo/runner/prelude");
    assert_eq!(layout.artifacts, "/home/u/.cargo/runner/dy-cache");
}

#[test]
fn a_new_cache_is_made_with_the_default_prelude() {
    let layout = cache_layout("/h");
    let plan = ensure_cache(&layout, CacheSeen { root_is_dir: false, prelude: None });
    assert_eq!(plan.prelude, Ok(PRELUDE.to_string()));
    assert_eq!(plan.steps.len(), 3);
    assert!(matches!(&plan.steps[0], FsStep::CreateDir(p) if p == "/h/runner"));
    assert!(matches!(&plan.steps[1], FsStep::WriteFile(p, t) if p == "/h/runner/prelude" && t == PRELUDE));
    assert!(matches!(&plan.steps[2], FsStep::CreateDir(p) if p == "/h/runner/dy-cache"));
}

#[test]
fn making_sure_of_the_cache_twice_gives_the_prelude_twice() {
    let layout = cache_layout("/h");
    let first = ensure_cache(&layout, CacheSeen { root_is_dir: false, prelude: None });
    // what the steps of the first time leave behind
    let mut seen = CacheSeen { root_is_dir: false, prelude: None };
    for step in &first.steps {
        match step {
            FsStep::CreateDir(path) if *path == layout.root => seen.root_is_dir = true,
            FsStep::WriteFile(path, text) if *path == layout.prelude => {
                seen.prelude = Some(text.clone().into_bytes())
            }
            _ => {}
        }
    }
    let second = ensure_cache(&layout, seen);
    assert!(second.steps.is_empty());
    assert!(second.prelude.is_ok());
    assert_eq!(second.prelude, first.prelude);
}

#[test]
fn an_old_cache_gives_its_own_prelude() {
    let layout = cache_layout("/h");
    let seen = CacheSeen { root_is_dir: true, prelude: Some(b"use my::things::*;\n".to_vec()) };
    let plan = ensure_cache(&layout, seen);
    assert!(plan.steps.is_empty());
    assert_eq!(plan.prelude, Ok("use my::things::*;\n".to_string()));
}

#[test]
fn a_cache_without_a_prelude_is_not_repaired() {
    let layout = cache_layout("/h");
    let plan = ensure_cache(&layout, CacheSeen { root_is_dir: true, prelude: None });
    assert!(plan.steps.is_empty());
    assert_eq!(plan.prelude, Err(Error::FileSystem("cannot read the prelude of the cache".to_string())));
    let plan = ensure_cache(&layout, CacheSeen { root_is_dir: true, prelude: Some(vec![0xff]) });
    assert!(plan.steps.is_empty());
    assert_eq!(plan.prelude, Err(Error::FileSystem("the prelude of the cache is no UTF-8".to_string())));
}

#[test]
fn a_pipeline_that_succeeds() {
    let compile = compile_command("/c", &Vec::new(), "temp/x.rs", "temp/x");
    let run = run_command("temp/x", &Vec::new(), "/l");
    let stage = start();
    assert_eq!(stage, Stage::Compiling);
    assert_eq!(pending(&stage, &compile, &run).map(|c| c.program.clone()), Some("rustc".to_string()));
    let stage = advance(stage, exited(0, "warning: unused\n"));
    assert_eq!(stage, Stage::Running);
    assert_eq!(pending(&stage, &compile, &run).map(|c| c.program.clone()), Some("temp/x".to_string()));
    let stage = advance(stage, exited(0, ""));
    assert_eq!(stage, Stage::Finished(Outcome::Completed(0)));
    assert!(pending(&stage, &compile, &run).is_none());
    let exit = exit_of("runner", &Outcome::Completed(0));
    assert_eq!(exit.code, 0);
    assert_eq!(exit.message, "");
}

#[test]
fn a_compiler_error_ends_the_pipeline_with_the_compilers_words() {
    let errors = "error[E0425]: cannot find value `y` in this scope\n --> temp/x.rs:3:5\n\nerror: aborting\n";
    let compile = compile_command("/c", &Vec::new(), "temp/x.rs", "temp/x");
    let run = run_command("temp/x", &Vec::new(), "/l");
    let stage = advance(start(), exited(1, errors));
    assert_eq!(stage, Stage::Finished(Outcome::CompileFailed(errors.to_string())));
    assert!(pending(&stage, &compile, &run).is_none());
    match stage {
        Stage::Finished(outcome) => {
            let exit = exit_of("runner", &outcome);
            assert_eq!(exit.code, 1);
            assert_eq!(exit.message, errors);
        }
        _ => panic!("the pipeline goes on after a compiler error"),
    }
}

#[test]
fn a_compiler_that_a_signal_ended_has_failed() {
    let stage = advance(start(), Event::Exited { code: None, errors: "killed".to_string() });
    assert_eq!(stage, Stage::Finished(Outcome::CompileFailed("killed".to_string())));
}

#[test]
fn the_programs_exit_code_is_handed_on() {
    for code in [0, 1, 2, 101, 255, -1] {
        let stage = advance(advance(start(), exited(0, "")), exited(code, "ignored"));
        assert_eq!(stage, Stage::Finished(Outcome::Completed(code)));
        let exit = exit_of("runner", &Outcome::Completed(code));
        assert_eq!(exit.code, code);
        assert_eq!(exit.message, "");
    }
}

#[test]
fn a_program_that_a_signal_ended_exits_with_one() {
    let stage = advance(Stage::Running, Event::Exited { code: None, errors: String::new() });
    assert_eq!(stage, Stage::Finished(Outcome::Completed(1)));
}

#[test]
fn a_process_that_cannot_be_started_ends_the_pipeline() {
    let stage = advance(start(), Event::NotStarted("can't run rustc: not found".to_string()));
    assert_eq!(stage, Stage::Finished(Outcome::LaunchFailed("can't run rustc: not found".to_string())));
    let stage = advance(Stage::Running, Event::NotStarted("can't run program \"temp/x\"".to_string()));
    assert_eq!(stage, Stage::Finished(Outcome::LaunchFailed("can't run program \"temp/x\"".to_string())));
    let exit = exit_of("runner", &Outcome::LaunchFailed("can't run program \"temp/x\"".to_string()));
    assert_eq!(exit.code, 1);
    assert_eq!(exit.message, "runner error: can't run program \"temp/x\"\n");
}

#[test]
fn a_finished_pipeline_stays_finished() {
    let done = Stage::Finished(Outcome::Completed(3));
    assert_eq!(advance(done.clone(), exited(0, "")), done);
    assert_eq!(advance(done.clone(), Event::NotStarted("x".to_string())), done);
}

#[test]
fn the_job_for_a_bare_snippet() {
    let layout = cache_layout("/h");
    let script = Script { path: "hi.rs".to_string(), forwarded: strings(&["one"]) };
    let job = prepare(script, "println!(\"hi\")", PRELUDE, &layout).ok().unwrap();
    assert_eq!(job.source, "temp/hi.rs");
    assert_eq!(job.artifact, "temp/hi");
    assert_eq!(
        job.text,
        format!(
            "{}use std::error::Error;\nfn run() -> Result<(),Box<dyn Error>> {{\n    println!(\"hi\")\n    ;\n    Ok(())\n}}\nfn main() {{\n    run().unwrap();\n}}\n",
            PRELUDE
        )
    );
    assert_eq!(job.compile.program, "rustc");
    assert_eq!(
        job.compile.args,
        strings(&["-C", "prefer-dynamic", "-C", "debuginfo=0", "-L", "/h/runner/dy-cache", "-o", "temp/hi", "temp/hi.rs"])
    );
    assert_eq!(job.forwarded, strings(&["one"]));
    let run = run_of(&job, "/opt/rust", &layout);
    assert_eq!(run.program, "temp/hi");
    assert_eq!(run.args, strings(&["one"]));
    assert_eq!(run.env, vec![("LD_LIBRARY_PATH".to_string(), "/opt/rust/lib:/h/runner/dy-cache".to_string())]);
}

#[test]
fn the_job_links_the_declared_dependencies() {
    let layout = cache_layout("/h");
    let script = Script { path: "t.rs".to_string(), forwarded: Vec::new() };
    let job = prepare(script, "extern crate time;\nfn main() {}\n", "", &layout).ok().unwrap();
    assert_eq!(job.text, "extern crate time;\nfn main() {}\n");
    assert_eq!(
        job.compile.args,
        strings(&[
            "-C", "prefer-dynamic", "-C", "debuginfo=0", "-L", "/h/runner/dy-cache",
            "--extern", "time=/h/runner/dy-cache/libtime.so", "-o", "temp/t", "temp/t.rs",
        ])
    );
}

#[test]
fn there_is_no_job_where_the_analysis_fails() {
    let layout = cache_layout("/h");
    let script = Script { path: "t.rs".to_string(), forwarded: Vec::new() };
    let e = prepare(script, "extern crate ", "", &layout).err();
    assert_eq!(
        e,
        Some(Error::Parse(easy_shortcuts::analysis::ParseError::MissingName { at: 0 }))
    );
}

#[test]
fn a_step_that_could_not_be_done_is_a_file_system_error() {
    let e = step_failed(&FsStep::CreateDir("/h/runner".to_string()), "permission denied");
    assert_eq!(e, Error::FileSystem("cannot create directory /h/runner: permission denied".to_string()));
    let e = step_failed(&FsStep::WriteFile("temp/x.rs".to_string(), "text".to_string()), "disk full");
    assert_eq!(e, Error::FileSystem("cannot write temp/x.rs: disk full".to_string()));
}

#[test]
fn a_command_that_could_not_be_started_says_which() {
    let run = run_command("temp/x", &Vec::new(), "/l");
    let stage = advance(Stage::Running, not_started(&run, "No such file or directory"));
    assert_eq!(
        stage,
        Stage::Finished(Outcome::LaunchFailed("can't run temp/x: No such file or directory".to_string()))
    );
}
