//! Giving up: a program that fails hard and early writes one line to its
//! error stream and exits with a code that is not zero. Here the line and the
//! code are computed; the caller writes and exits.

use vstd::prelude::*;
use vstd::string::StringExecFns;
use crate::analysis::ParseError;

verus! {

/// How a program ends that gives up: what it writes to its error stream, to
/// the letter, and the code it exits with.
#[derive(Debug, Clone, PartialEq, Eq)]
pub struct Exit {
    pub message: String,
    pub code: i32,
}

/// What went wrong.
#[derive(Debug, Clone, PartialEq, Eq)]
pub enum Error {
    /// The program was called with arguments it cannot use.
    Usage(String),
    /// A file or a directory could not be made, read or written.
    FileSystem(String),
    /// A dependency declaration names nothing.
    Parse(ParseError),
    /// The compiler failed; this is what it wrote to its error stream.
    Compile(String),
    /// The compiled program could not be started.
    Launch(String),
}

/// An exit as its message reads.
pub struct ExitView {
    pub message: Seq<char>,
    pub code: i32,
}

impl View for Exit {
    type V = ExitView;

    open spec fn view(&self) -> ExitView {
        ExitView { message: self.message@, code: self.code }
    }
}

/// An error as its strings read.
pub enum ErrorView {
    Usage(Seq<char>),
    FileSystem(Seq<char>),
    Parse(ParseError),
    Compile(Seq<char>),
    Launch(Seq<char>),
}

impl View for Error {
    type V = ErrorView;

    open spec fn view(&self) -> ErrorView {
        match self {
            Error::Usage(msg) => ErrorView::Usage(msg@),
            Error::FileSystem(msg) => ErrorView::FileSystem(msg@),
            Error::Parse(p) => ErrorView::Parse(*p),
            Error::Compile(text) => ErrorView::Compile(text@),
            Error::Launch(msg) => ErrorView::Launch(msg@),
        }
    }
}

/// The digit for a number below ten.
pub open spec fn digit(d: nat) -> char {
    if d == 0 {
        '0'
    } else if d == 1 {
        '1'
    } else if d == 2 {
        '2'
    } else if d == 3 {
        '3'
    } else if d == 4 {
        '4'
    } else if d == 5 {
        '5'
    } else if d == 6 {
        '6'
    } else if d == 7 {
        '7'
    } else if d == 8 {
        '8'
    } else {
        '9'
    }
}

/// The decimal digits of `n`, the highest first.
pub open spec fn digits(n: nat) -> Seq<char>
    decreases n,
{
    if n < 10 {
        seq![digit(n)]
    } else {
        digits(n / 10).push(digit(n % 10))
    }
}

/// The line that a program named `program` writes when it gives up for `msg`.
pub open spec fn quit_line(program: Seq<char>, msg: Seq<char>) -> Seq<char> {
    program + " error: "@ + msg + seq!['\n']
}

/// What is said of a declaration that names nothing.
pub open spec fn parse_error_text(e: ParseError) -> Seq<char> {
    match e {
        ParseError::MissingName { at } => "no name follows the declaration at character "@
            + digits(at as nat),
        ParseError::UnterminatedName { at } =>
            "the text ends within the name declared at character "@ + digits(at as nat),
    }
}

/// What is said of an error.
pub open spec fn description_of(e: ErrorView) -> Seq<char> {
    match e {
        ErrorView::Usage(msg) => msg,
        ErrorView::FileSystem(msg) => msg,
        ErrorView::Parse(p) => parse_error_text(p),
        ErrorView::Compile(text) => text,
        ErrorView::Launch(msg) => msg,
    }
}

/// What a program named `program` writes when it gives up for `e`: the
/// compiler's own words as they are, a line of its own for anything else.
pub open spec fn exit_for(program: Seq<char>, e: ErrorView) -> ExitView {
    ExitView {
        message: match e {
            ErrorView::Compile(text) => text,
            _ => quit_line(program, description_of(e)),
        },
        code: 1,
    }
}

fn digit_char(d: usize) -> (c: char)
    requires
        d < 10,
    ensures
        c == digit(d as nat),
{
    if d == 0 {
        '0'
    } else if d == 1 {
        '1'
    } else if d == 2 {
        '2'
    } else if d == 3 {
        '3'
    } else if d == 4 {
        '4'
    } else if d == 5 {
        '5'
    } else if d == 6 {
        '6'
    } else if d == 7 {
        '7'
    } else if d == 8 {
        '8'
    } else {
        '9'
    }
}

/// Appends the decimal digits of `n` to `out`.
pub fn push_decimal(out: &mut String, n: usize)
    ensures
        final(out)@ == old(out)@ + digits(n as nat),
    decreases n,
{
    if n >= 10 {
        push_decimal(out, n / 10);
    }
    out.push(digit_char(n % 10));
}

/// `n` in decimal digits.
pub fn decimal(n: usize) -> (s: String)
    ensures
        s@ == digits(n as nat),
{
    let mut s = String::new();
    push_decimal(&mut s, n);
    s
}

/// Gives up for `msg`: the line to write, and exit code 1.
pub fn quit(program: &str, msg: &str) -> (e: Exit)
    ensures
        e@ == (ExitView { message: quit_line(program@, msg@), code: 1 }),
{
    let mut message = String::from_str(program);
    message.append(" error: ");
    message.append(msg);
    message.push('\n');
    assert(message@ == quit_line(program@, msg@));
    Exit { message, code: 1 }
}

impl ParseError {
    /// What is said of this error.
    pub fn description(&self) -> (s: String)
        ensures
            s@ == parse_error_text(*self),
    {
        match self {
            ParseError::MissingName { at } => {
                let mut s = String::from_str("no name follows the declaration at character ");
                push_decimal(&mut s, *at);
                s
            },
            ParseError::UnterminatedName { at } => {
                let mut s = String::from_str(
                    "the text ends within the name declared at character ",
                );
                push_decimal(&mut s, *at);
                s
            },
        }
    }
}

impl Error {
    /// What is said of this error.
    pub fn description(&self) -> (s: String)
        ensures
            s@ == description_of(self@),
    {
        match self {
            Error::Usage(msg) => msg.clone(),
            Error::FileSystem(msg) => msg.clone(),
            Error::Parse(p) => p.description(),
            Error::Compile(text) => text.clone(),
            Error::Launch(msg) => msg.clone(),
        }
    }
}

/// Gives up for the error `e`: what to write, and exit code 1.
pub fn quit_err(program: &str, e: &Error) -> (x: Exit)
    ensures
        x@ == exit_for(program@, e@),
{
    match e {
        Error::Compile(text) => Exit { message: text.clone(), code: 1 },
        _ => {
            let msg = e.description();
            quit(program, msg.as_str())
        },
    }
}

/// The argument at index `idx`, or `def` where there is none.
pub fn argn_or(args: &Vec<String>, idx: usize, def: &str) -> (s: String)
    ensures
        s@ == if idx < args@.len() {
            args@[idx as int]@
        } else {
            def@
        },
{
    if idx < args.len() {
        args[idx].clone()
    } else {
        String::from_str(def)
    }
}

/// What is said where the argument at index `idx` is missing.
pub open spec fn missing_argument(idx: nat, msg: Seq<char>) -> Seq<char> {
    "no argument "@ + digits(idx) + ": "@ + msg
}

/// The argument at index `idx`; where there is none, the program named by
/// the first argument gives up.
pub fn argn_err(args: &Vec<String>, idx: usize, msg: &str) -> (r: Result<String, Exit>)
    ensures
        match r {
            Ok(s) => idx < args@.len() && s@ == args@[idx as int]@,
            Err(x) => idx >= args@.len() && x@ == (ExitView {
                message: quit_line(
                    if args@.len() > 0 {
                        args@[0]@
                    } else {
                        Seq::empty()
                    },
                    missing_argument(idx as nat, msg@),
                ),
                code: 1,
            }),
        },
{
    if idx < args.len() {
        Ok(args[idx].clone())
    } else {
        let program = argn_or(args, 0, "");
        let mut text = String::from_str("no argument ");
        push_decimal(&mut text, idx);
        text.append(": ");
        text.append(msg);
        proof {
            reveal_strlit("");
            assert(""@ =~= Seq::<char>::empty());
        }
        Err(quit(program.as_str(), text.as_str()))
    }
}

} // verus!
