use easy_shortcuts::analysis::{analyze, Analysis};
use easy_shortcuts::rules::Rules;
use easy_shortcuts::synth::{synthesize, synthesize_with};

const OPENING: &str = "use std::error::Error;\nfn run() -> Result<(),Box<dyn Error>> {\n";
const CLOSING: &str = "    ;\n    Ok(())\n}\nfn main() {\n    run().unwrap();\n}\n";

fn made_of(snippet: &str, prelude: &str) -> String {
    let analysis = analyze(snippet).unwrap();
    synthesize(snippet, &analysis, prelude)
}

#[test]
fn the_standard_rules() {
    let rules = Rules::standard();
    assert_eq!(rules.entry_marker, "fn main");
    assert_eq!(rules.declaration, "extern crate");
    assert_eq!(rules.indent, "    ");
    assert_eq!(rules.opening, OPENING);
    assert_eq!(rules.closing, CLOSING);
    assert_eq!(rules.pass_through, vec!["//".to_string(), "extern ".to_string(), "use ".to_string()]);
    assert_eq!(rules.triggers.len(), 6);
    assert_eq!(rules.triggers[0].token, "File::");
    assert_eq!(rules.triggers[0].import, "use std::fs::File;");
    assert_eq!(rules.triggers[5].token, "io::");
    assert_eq!(rules.triggers[5].import, "use std::io;");
}

#[test]
fn a_program_is_left_as_it_is() {
    for snippet in [
        "fn main() {}",
        "use std::env;\n\nfn main() {\r\n    println!(\"{:?}\", env::args());\n}",
        "  // fn main\n",
    ] {
        assert_eq!(made_of(snippet, "PRELUDE\n"), snippet);
    }
}

#[test]
fn a_bare_line_is_wrapped() {
    let program = made_of("println!(\"hi\")", "// prelude\n");
    assert_eq!(program, format!("// prelude\n{}    println!(\"hi\")\n{}", OPENING, CLOSING));
}

#[test]
fn the_whole_program_of_a_bare_line() {
    let program = made_of("println!(\"hi\")", "");
    assert_eq!(
        program,
        "use std::error::Error;\nfn run() -> Result<(),Box<dyn Error>> {\n    println!(\"hi\")\n    ;\n    Ok(())\n}\nfn main() {\n    run().unwrap();\n}\n"
    );
}

#[test]
fn body_lines_keep_their_order_behind_one_indentation() {
    let snippet = "let a = 1;\n  let b = 2;\n\nprintln!(\"{}\", a + b);\n";
    let program = made_of(snippet, "");
    let inner = program.strip_prefix(OPENING).unwrap().strip_suffix(CLOSING).unwrap();
    let lines: Vec<&str> = inner.split_terminator('\n').collect();
    assert_eq!(lines, vec!["    let a = 1;", "      let b = 2;", "    ", "    println!(\"{}\", a + b);"]);
}

#[test]
fn leading_lines_pass_through() {
    let snippet = "// a script\n\nextern crate time;\n  use std::thread;\nlet t = time::now();\n// not leading\nuse x;\n";
    let program = made_of(snippet, "P\n");
    assert_eq!(
        program,
        format!(
            "P\n// a script\n\nextern crate time;\n  use std::thread;\n{}    let t = time::now();\n    // not leading\n    use x;\n{}",
            OPENING, CLOSING
        )
    );
}

#[test]
fn a_snippet_of_leading_lines_has_an_empty_body() {
    let program = made_of("// only this\n", "");
    assert_eq!(program, format!("// only this\n{}{}", OPENING, CLOSING));
    assert_eq!(made_of("", "P"), format!("P{}{}", OPENING, CLOSING));
}

#[test]
fn line_endings_become_line_feeds() {
    let program = made_of("// top\r\nlet x = 1;\r\nlet y = 2;", "");
    assert_eq!(program, format!("// top\n{}    let x = 1;\n    let y = 2;\n{}", OPENING, CLOSING));
}

#[test]
fn a_needed_import_is_put_in_once() {
    let snippet = "let a = File::open(\"a\")?;\nlet b = File::open(\"b\")?;\nlet c = File::create(\"c\")?;\n";
    let program = made_of(snippet, "// prelude\n");
    assert_eq!(program.matches("use std::fs::File;").count(), 1);
    assert!(program.starts_with("// prelude\nuse std::fs::File;\nuse std::error::Error;\n"));
}

#[test]
fn an_import_that_passes_through_is_not_put_in_again() {
    let snippet = "use std::fs::File;\nlet a = File::open(\"a\")?;\n";
    let program = made_of(snippet, "");
    assert_eq!(program.matches("use std::fs::File;").count(), 1);
    assert_eq!(
        program,
        format!("use std::fs;\nuse std::fs::File;\n{}    let a = File::open(\"a\")?;\n{}", OPENING, CLOSING)
    );
}

#[test]
fn an_import_in_the_body_does_not_count() {
    let snippet = "let x = 1;\nuse std::env;\nenv::args();\n";
    let program = made_of(snippet, "");
    assert_eq!(
        program,
        format!("use std::env;\n{}    let x = 1;\n    use std::env;\n    env::args();\n{}", OPENING, CLOSING)
    );
}

#[test]
fn the_analysis_decides_not_the_text() {
    // an analysis that claims an entry point leaves any text as it is
    let claimed = Analysis {
        has_entry_point: true,
        needed_std_imports: vec!["use std::env;".to_string()],
        declared_external_deps: Vec::new(),
    };
    assert_eq!(synthesize("let x = 1;", &claimed, "P"), "let x = 1;");
    let denied = Analysis {
        has_entry_point: false,
        needed_std_imports: vec!["use a;".to_string(), "use b;".to_string()],
        declared_external_deps: Vec::new(),
    };
    assert_eq!(
        synthesize("use b;\nfn main() {}", &denied, "P\n"),
        format!("P\nuse a;\nuse b;\n{}    fn main() {{}}\n{}", OPENING, CLOSING)
    );
}

#[test]
fn other_rules_give_another_program() {
    let mut rules = Rules::standard();
    rules.indent = "\t".to_string();
    rules.opening = "fn run() {\n".to_string();
    rules.closing = "}\n".to_string();
    rules.pass_through = vec!["#".to_string()];
    let snippet = "# note\n// body now\nwork();";
    let analysis = analyze(snippet).unwrap();
    assert_eq!(
        synthesize_with(&rules, snippet, &analysis, ""),
        "# note\nfn run() {\n\t// body now\n\twork();\n}\n"
    );
}
