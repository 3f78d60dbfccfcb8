//! The commands by which a program is compiled and run, and the paths they
//! work on. Nothing here starts a process: a command is a value that the
//! caller runs.

use vstd::prelude::*;
use vstd::string::StringExecFns;
use crate::files::string_from_utf8;
use crate::quit::{
    missing_argument, push_decimal, quit, quit_line, Error, ErrorView, Exit, ExitView,
};
use vstd::utf8::{decode_utf8, valid_utf8};
use crate::rules::views;
use crate::text::{find_last, from_chars, last_at, lemma_last_at, matches_at, to_chars};

verus! {

/// A command: a program, its arguments and what is added to its environment.
pub struct Command {
    pub program: String,
    pub args: Vec<String>,
    pub env: Vec<(String, String)>,
}

/// A command as its strings read.
pub struct CommandView {
    pub program: Seq<char>,
    pub args: Seq<Seq<char>>,
    pub env: Seq<(Seq<char>, Seq<char>)>,
}

impl View for Command {
    type V = CommandView;

    open spec fn view(&self) -> CommandView {
        CommandView {
            program: self.program@,
            args: views(self.args@),
            env: Seq::new(self.env@.len(), |i: int| (self.env@[i].0@, self.env@[i].1@)),
        }
    }
}

/// A script to run and the arguments to hand on to it.
pub struct Script {
    pub path: String,
    pub forwarded: Vec<String>,
}

/// The index of the dot before the extension of `path`: the last dot, where
/// it stands in the last component of the path and not at its beginning.
pub open spec fn extension_dot(path: Seq<char>) -> Option<int> {
    if last_at(path, '.') > last_at(path, '/') + 1 {
        Some(last_at(path, '.'))
    } else {
        None
    }
}

/// What is wrong with the arguments `args`, of which the first names the
/// program and the second the script; `None` where the script can be run.
pub open spec fn usage_problem(args: Seq<Seq<char>>) -> Option<Seq<char>> {
    if args.len() < 2 {
        Some(missing_argument(1, "please supply a source file"@))
    } else {
        match extension_dot(args[1]) {
            None => Some("no file extension"@),
            Some(dot) => if args[1].skip(dot + 1) == "rs"@ {
                None
            } else {
                Some("file extension must be .rs"@)
            },
        }
    }
}

/// The script that `args` name. Fails before anything is read where the
/// script is missing or does not end in `.rs`.
pub fn check_script(args: &Vec<String>) -> (r: Result<Script, Error>)
    ensures
        match r {
            Ok(script) => usage_problem(views(args@)) is None && script.path@ == args@[1]@ && views(
                script.forwarded@,
            ) == views(args@).skip(2),
            Err(e) => usage_problem(views(args@)) is Some && e@ == ErrorView::Usage(
                usage_problem(views(args@))->0,
            ),
        },
{
    if args.len() < 2 {
        let mut msg = String::from_str("no argument ");
        push_decimal(&mut msg, 1);
        msg.append(": ");
        msg.append("please supply a source file");
        return Err(Error::Usage(msg));
    }
    let path = to_chars(args[1].as_str());
    let dot = find_last(path.as_slice(), '.');
    let slash = find_last(path.as_slice(), '/');
    proof {
        lemma_last_at(path@, '.');
        lemma_last_at(path@, '/');
        assert(views(args@)[1] == path@);
    }
    if dot == 0 || dot - 1 <= slash {
        return Err(Error::Usage(String::from_str("no file extension")));
    }
    let rs = to_chars("rs");
    proof {
        reveal_strlit("rs");
        assert("rs"@.len() == 2);
        assert(rs@ == "rs"@);
        assert(path@.skip(dot as int).len() == path@.len() - dot);
        if path@.len() - dot == 2 {
            assert(path@.skip(dot as int) == path@.subrange(dot as int, dot + 2));
        }
        assert(extension_dot(path@) == Some(dot as int - 1));
    }
    if !(path.len() - dot == 2 && matches_at(path.as_slice(), rs.as_slice(), dot)) {
        return Err(Error::Usage(String::from_str("file extension must be .rs")));
    }
    let mut forwarded: Vec<String> = Vec::new();
    let mut i: usize = 2;
    while i < args.len()
        invariant
            2 <= i <= args@.len(),
            views(forwarded@) == views(args@).subrange(2, i as int),
        decreases args.len() - i,
    {
        let ghost before = views(forwarded@);
        forwarded.push(args[i].clone());
        assert(views(forwarded@) == before.push(args@[i as int]@));
        i += 1;
    }
    assert(views(args@).subrange(2, args@.len() as int) == views(args@).skip(2));
    Ok(Script { path: args[1].clone(), forwarded })
}

/// Where the program made of the script at `script` is written: the same
/// path below the directory `temp`.
pub open spec fn scratch_source(script: Seq<char>) -> Seq<char> {
    "temp/"@ + script
}

/// Where the compiler puts what it makes of `source`: `source` without its
/// extension.
pub open spec fn artifact_of(source: Seq<char>) -> Seq<char> {
    match extension_dot(source) {
        Some(dot) => source.take(dot),
        None => source,
    }
}

/// The paths of the scratch source and of the artifact for `script`.
pub fn scratch_paths(script: &str) -> (r: (String, String))
    ensures
        r.0@ == scratch_source(script@),
        r.1@ == artifact_of(r.0@),
{
    let mut source = String::from_str("temp/");
    source.append(script);
    let path = to_chars(source.as_str());
    let dot = find_last(path.as_slice(), '.');
    let slash = find_last(path.as_slice(), '/');
    proof {
        lemma_last_at(path@, '.');
        lemma_last_at(path@, '/');
    }
    let artifact = if dot == 0 || dot - 1 <= slash {
        source.clone()
    } else {
        from_chars(path.as_slice(), 0, dot - 1)
    };
    (source, artifact)
}

/// For each dependency the flag that links it, and the shared library in
/// `cache` that it is linked from.
pub open spec fn extern_flags(deps: Seq<Seq<char>>, cache: Seq<char>) -> Seq<Seq<char>>
    decreases deps.len(),
{
    if deps.len() == 0 {
        Seq::empty()
    } else {
        extern_flags(deps.drop_last(), cache).push("--extern"@).push(
            deps.last() + "="@ + cache + "/lib"@ + deps.last() + ".so"@,
        )
    }
}

/// The compiler's arguments: link dynamically, leave out debug information,
/// look for libraries in `cache`, link each dependency, write `artifact`, read
/// `source`.
pub open spec fn compile_args(
    cache: Seq<char>,
    deps: Seq<Seq<char>>,
    source: Seq<char>,
    artifact: Seq<char>,
) -> Seq<Seq<char>> {
    seq!["-C"@, "prefer-dynamic"@, "-C"@, "debuginfo=0"@, "-L"@, cache] + extern_flags(deps, cache)
        + seq!["-o"@, artifact, source]
}

/// The command that compiles `source` to `artifact`.
pub fn compile_command(
    cache: &str,
    deps: &Vec<String>,
    source: &str,
    artifact: &str,
) -> (c: Command)
    ensures
        c@ == (CommandView {
            program: "rustc"@,
            args: compile_args(cache@, views(deps@), source@, artifact@),
            env: Seq::empty(),
        }),
{
    let mut args: Vec<String> = Vec::new();
    args.push(String::from_str("-C"));
    args.push(String::from_str("prefer-dynamic"));
    args.push(String::from_str("-C"));
    args.push(String::from_str("debuginfo=0"));
    args.push(String::from_str("-L"));
    args.push(String::from_str(cache));
    let ghost fixed = seq!["-C"@, "prefer-dynamic"@, "-C"@, "debuginfo=0"@, "-L"@, cache@];
    assert(views(args@) == fixed);
    let mut i: usize = 0;
    while i < deps.len()
        invariant
            i <= deps@.len(),
            views(args@) == fixed + extern_flags(views(deps@).take(i as int), cache@),
        decreases deps.len() - i,
    {
        let mut lib = deps[i].clone();
        lib.append("=");
        lib.append(cache);
        lib.append("/lib");
        lib.append(deps[i].as_str());
        lib.append(".so");
        let ghost before = views(args@);
        args.push(String::from_str("--extern"));
        args.push(lib);
        proof {
            let ds = views(deps@);
            assert(ds.take(i + 1).drop_last() == ds.take(i as int));
            assert(ds.take(i + 1).last() == deps@[i as int]@);
            assert(views(args@) == before.push("--extern"@).push(lib@));
        }
        i += 1;
    }
    assert(views(deps@).take(deps@.len() as int) == views(deps@));
    let ghost before = views(args@);
    args.push(String::from_str("-o"));
    args.push(String::from_str(artifact));
    args.push(String::from_str(source));
    assert(views(args@) == before + seq!["-o"@, artifact@, source@]);
    let env: Vec<(String, String)> = Vec::new();
    let c = Command { program: String::from_str("rustc"), args, env };
    assert(c@.env == Seq::<(Seq<char>, Seq<char>)>::empty());
    c
}

/// Where a program looks for shared libraries: in the library directory of
/// the toolchain at `sysroot`, then in `cache`.
pub open spec fn library_path_of(sysroot: Seq<char>, cache: Seq<char>) -> Seq<char> {
    sysroot + "/lib"@ + ":"@ + cache
}

/// The search path for shared libraries.
pub fn library_path(sysroot: &str, cache: &str) -> (r: String)
    ensures
        r@ == library_path_of(sysroot@, cache@),
{
    let mut r = String::from_str(sysroot);
    r.append("/lib");
    r.append(":");
    r.append(cache);
    r
}

/// The command that runs `artifact` with the arguments `forwarded` as they
/// are, and with `libraries` as its search path for shared libraries.
pub fn run_command(artifact: &str, forwarded: &Vec<String>, libraries: &str) -> (c: Command)
    ensures
        c@ == (CommandView {
            program: artifact@,
            args: views(forwarded@),
            env: seq![("LD_LIBRARY_PATH"@, libraries@)],
        }),
{
    let mut args: Vec<String> = Vec::new();
    let mut i: usize = 0;
    while i < forwarded.len()
        invariant
            i <= forwarded@.len(),
            views(args@) == views(forwarded@).take(i as int),
        decreases forwarded.len() - i,
    {
        let ghost before = views(args@);
        args.push(forwarded[i].clone());
        assert(views(args@) == before.push(forwarded@[i as int]@));
        i += 1;
    }
    assert(views(forwarded@).take(forwarded@.len() as int) == views(forwarded@));
    let mut env: Vec<(String, String)> = Vec::new();
    env.push((String::from_str("LD_LIBRARY_PATH"), String::from_str(libraries)));
    let c = Command { program: String::from_str(artifact), args, env };
    assert(c@.env == seq![("LD_LIBRARY_PATH"@, libraries@)]);
    c
}

/// The command that has the shell run `cmd`, with what `cmd` writes to its
/// error stream sent to its output.
pub fn shell(cmd: &str) -> (c: Command)
    ensures
        c@ == (CommandView {
            program: "sh"@,
            args: seq!["-c"@, cmd@ + " 2>&1"@],
            env: Seq::empty(),
        }),
{
    let mut line = String::from_str(cmd);
    line.append(" 2>&1");
    let mut args: Vec<String> = Vec::new();
    args.push(String::from_str("-c"));
    args.push(line);
    assert(views(args@) == seq!["-c"@, cmd@ + " 2>&1"@]);
    let env: Vec<(String, String)> = Vec::new();
    let c = Command { program: String::from_str("sh"), args, env };
    assert(c@.env == Seq::<(Seq<char>, Seq<char>)>::empty());
    c
}

/// `s` without the line feeds at its end.
pub open spec fn without_final_feeds(s: Seq<char>) -> Seq<char>
    decreases s.len(),
{
    if s.len() > 0 && s.last() == '\n' {
        without_final_feeds(s.drop_last())
    } else {
        s
    }
}

/// What a command that the shell ran has written, without the line feeds at
/// its end. Where the output is no UTF-8, the program named `program` gives
/// up.
pub fn shell_text(program: &str, output: Vec<u8>) -> (r: Result<String, Exit>)
    ensures
        match r {
            Ok(s) => valid_utf8(output@) && s@ == without_final_feeds(decode_utf8(output@)),
            Err(x) => !valid_utf8(output@) && x@ == (ExitView {
                message: quit_line(program@, "invalid utf-8"@),
                code: 1,
            }),
        },
{
    match string_from_utf8(output) {
        None => Err(quit(program, "invalid utf-8")),
        Some(text) => {
            let v = to_chars(text.as_str());
            let mut n: usize = v.len();
            assert(v@.take(n as int) == v@);
            while n > 0 && v[n - 1] == '\n'
                invariant
                    n <= v@.len(),
                    without_final_feeds(v@) == without_final_feeds(v@.take(n as int)),
                decreases n,
            {
                assert(v@.take(n as int).drop_last() == v@.take(n - 1));
                n -= 1;
            }
            assert(v@.take(n as int) == v@.subrange(0, n as int));
            assert(n > 0 ==> v@.take(n as int).last() == v@[n - 1]);
            Ok(from_chars(v.as_slice(), 0, n))
        },
    }
}

} // verus!
