//! The rules by which a snippet is read and completed: which text marks an
//! entry point or declares a dependency, which tokens call for which import,
//! which leading lines pass through, and the text that is put around a body.
//! The analysis is a heuristic on text, not a parse; every rule is data.

use vstd::prelude::*;
use vstd::string::StringExecFns;

verus! {

/// A token whose presence in a snippet calls for an import line.
pub struct Trigger {
    pub token: String,
    pub import: String,
}

/// The rules of analysis and synthesis.
pub struct Rules {
    /// The text that marks a program's entry point.
    pub entry_marker: String,
    /// The keyword that declares an outside dependency.
    pub declaration: String,
    /// The tokens that call for an import, with the import lines.
    pub triggers: Vec<Trigger>,
    /// A leading line passes through if, without its leading white space, it
    /// is empty or begins with one of these.
    pub pass_through: Vec<String>,
    /// What is put in front of every line of the body.
    pub indent: String,
    /// The text that opens the fallible function around the body.
    pub opening: String,
    /// The text that closes it, ending whatever statement the body leaves
    /// open and returning success, and the entry point that calls it and
    /// fails the process if it failed.
    pub closing: String,
}

/// The rules as the analysis reads them.
pub struct RulesView {
    pub entry_marker: Seq<char>,
    pub declaration: Seq<char>,
    /// The triggers as pairs of token and import line.
    pub triggers: Seq<(Seq<char>, Seq<char>)>,
    pub pass_through: Seq<Seq<char>>,
    pub indent: Seq<char>,
    pub opening: Seq<char>,
    pub closing: Seq<char>,
}

impl View for Rules {
    type V = RulesView;

    open spec fn view(&self) -> RulesView {
        RulesView {
            entry_marker: self.entry_marker@,
            declaration: self.declaration@,
            triggers: table(self.triggers@),
            pass_through: views(self.pass_through@),
            indent: self.indent@,
            opening: self.opening@,
            closing: self.closing@,
        }
    }
}

/// The views of a sequence of strings.
pub open spec fn views(v: Seq<String>) -> Seq<Seq<char>> {
    Seq::new(v.len(), |i: int| v[i]@)
}

/// The triggers as pairs of token and import line.
pub open spec fn table(triggers: Seq<Trigger>) -> Seq<(Seq<char>, Seq<char>)> {
    Seq::new(triggers.len(), |i: int| (triggers[i].token@, triggers[i].import@))
}

/// The standard triggers, as pairs of token and import line.
pub open spec fn standard_table() -> Seq<(Seq<char>, Seq<char>)> {
    seq![
        ("File::"@, "use std::fs::File;"@),
        ("fs::"@, "use std::fs;"@),
        ("env::"@, "use std::env;"@),
        ("PathBuf::"@, "use std::path::PathBuf;"@),
        ("Path::"@, "use std::path::Path;"@),
        ("io::"@, "use std::io;"@),
    ]
}

/// The standard beginnings of a line that passes through: a comment, a
/// dependency declaration, an import.
pub open spec fn standard_pass_through() -> Seq<Seq<char>> {
    seq!["//"@, "extern "@, "use "@]
}

/// The rules for Rust snippets.
pub open spec fn standard_rules() -> RulesView {
    RulesView {
        entry_marker: "fn main"@,
        declaration: "extern crate"@,
        triggers: standard_table(),
        pass_through: standard_pass_through(),
        indent: "    "@,
        opening: "use std::error::Error;\nfn run() -> Result<(),Box<dyn Error>> {\n"@,
        closing: "    ;\n    Ok(())\n}\nfn main() {\n    run().unwrap();\n}\n"@,
    }
}

fn trigger(token: &str, import: &str) -> (t: Trigger)
    ensures
        t.token@ == token@,
        t.import@ == import@,
{
    Trigger { token: String::from_str(token), import: String::from_str(import) }
}

impl Rules {
    /// The rules for Rust snippets.
    pub fn standard() -> (r: Rules)
        ensures
            r@ == standard_rules(),
    {
        let mut triggers: Vec<Trigger> = Vec::new();
        triggers.push(trigger("File::", "use std::fs::File;"));
        triggers.push(trigger("fs::", "use std::fs;"));
        triggers.push(trigger("env::", "use std::env;"));
        triggers.push(trigger("PathBuf::", "use std::path::PathBuf;"));
        triggers.push(trigger("Path::", "use std::path::Path;"));
        triggers.push(trigger("io::", "use std::io;"));
        let mut pass_through: Vec<String> = Vec::new();
        pass_through.push(String::from_str("//"));
        pass_through.push(String::from_str("extern "));
        pass_through.push(String::from_str("use "));
        assert(table(triggers@) == standard_table());
        assert(views(pass_through@) == standard_pass_through());
        Rules {
            entry_marker: String::from_str("fn main"),
            declaration: String::from_str("extern crate"),
            triggers,
            pass_through,
            indent: String::from_str("    "),
            opening: String::from_str(
                "use std::error::Error;\nfn run() -> Result<(),Box<dyn Error>> {\n",
            ),
            closing: String::from_str(
                "    ;\n    Ok(())\n}\nfn main() {\n    run().unwrap();\n}\n",
            ),
        }
    }
}

} // verus!
