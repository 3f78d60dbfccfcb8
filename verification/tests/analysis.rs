use easy_shortcuts::analysis::{analyze, analyze_with, char_is_name, ParseError};
use easy_shortcuts::rules::{Rules, Trigger};

fn strings(words: &[&str]) -> Vec<String> {
    words.iter().map(|w| w.to_string()).collect()
}

#[test]
fn a_bare_snippet_needs_nothing() {
    let a = analyze("println!(\"hi\")").unwrap();
    assert!(!a.has_entry_point);
    assert!(a.needed_std_imports.is_empty());
    assert!(a.declared_external_deps.is_empty());
}

#[test]
fn the_entry_marker_is_found_anywhere() {
    assert!(analyze("fn main() {}").unwrap().has_entry_point);
    assert!(analyze("// docs\nuse std::env;\n\nfn main() {\n}\n").unwrap().has_entry_point);
    assert!(analyze("pub fn main_loop() {}").unwrap().has_entry_point);
}

#[test]
fn the_entry_marker_is_taken_to_the_letter() {
    assert!(!analyze("fn Main() {}").unwrap().has_entry_point);
    assert!(!analyze("fn  main() {}").unwrap().has_entry_point);
    assert!(!analyze("fn\nmain() {}").unwrap().has_entry_point);
    assert!(!analyze("").unwrap().has_entry_point);
}

#[test]
fn a_token_calls_for_its_import() {
    let a = analyze("let f = File::open(\"x\")?;").unwrap();
    assert_eq!(a.needed_std_imports, strings(&["use std::fs::File;"]));
    let a = analyze("let home = env::var(\"HOME\")?;").unwrap();
    assert_eq!(a.needed_std_imports, strings(&["use std::env;"]));
    let a = analyze("let p = PathBuf::from(\".\");").unwrap();
    assert_eq!(a.needed_std_imports, strings(&["use std::path::PathBuf;"]));
}

#[test]
fn a_token_that_stands_often_calls_for_its_import_once() {
    let a = analyze("File::open(a)?;\nFile::open(b)?;\nFile::create(c)?;").unwrap();
    assert_eq!(a.needed_std_imports, strings(&["use std::fs::File;"]));
    let once = analyze("File::open(a)?;").unwrap();
    assert_eq!(a.needed_std_imports, once.needed_std_imports);
}

#[test]
fn imports_come_in_the_order_of_the_table() {
    let a = analyze("io::stdin(); Path::new(\".\"); env::args(); fs::read(p); File::open(p);").unwrap();
    assert_eq!(
        a.needed_std_imports,
        strings(&[
            "use std::fs::File;",
            "use std::fs;",
            "use std::env;",
            "use std::path::Path;",
            "use std::io;",
        ])
    );
}

#[test]
fn two_tokens_for_one_import_give_it_once() {
    let mut rules = Rules::standard();
    rules.triggers = vec![
        Trigger { token: "File::".to_string(), import: "use std::fs::File;".to_string() },
        Trigger { token: "OpenOptions".to_string(), import: "use std::fs::OpenOptions;".to_string() },
        Trigger { token: "File::create".to_string(), import: "use std::fs::File;".to_string() },
    ];
    let a = analyze_with(&rules, "File::create(p); OpenOptions::new();").unwrap();
    assert_eq!(a.needed_std_imports, strings(&["use std::fs::File;", "use std::fs::OpenOptions;"]));
}

#[test]
fn declared_dependencies_come_in_their_order() {
    let a = analyze("extern crate serde;\nextern crate rand_core;\nfn f() {}").unwrap();
    assert_eq!(a.declared_external_deps, strings(&["serde", "rand_core"]));
}

#[test]
fn a_dependency_declared_twice_is_kept_twice() {
    let a = analyze("extern crate a1;\nextern crate b;\nextern crate a1;\n").unwrap();
    assert_eq!(a.declared_external_deps, strings(&["a1", "b", "a1"]));
}

#[test]
fn a_name_begins_at_the_first_name_character() {
    let a = analyze("extern crate\t  time ;").unwrap();
    assert_eq!(a.declared_external_deps, strings(&["time"]));
    let a = analyze("extern crate easy_shortcuts as es;").unwrap();
    assert_eq!(a.declared_external_deps, strings(&["easy_shortcuts"]));
}

#[test]
fn a_keyword_without_a_name_fails() {
    assert_eq!(analyze("extern crate").err(), Some(ParseError::MissingName { at: 0 }));
    assert_eq!(analyze("let x = 1;\nextern crate ;\n").err(), Some(ParseError::MissingName { at: 11 }));
    assert_eq!(
        analyze("extern crate a;\nextern crate  \n").err(),
        Some(ParseError::MissingName { at: 16 })
    );
}

#[test]
fn a_name_that_runs_to_the_end_fails() {
    assert_eq!(analyze("extern crate serde").err(), Some(ParseError::UnterminatedName { at: 0 }));
    assert_eq!(
        analyze("fn main() {}\nextern crate x").err(),
        Some(ParseError::UnterminatedName { at: 13 })
    );
}

#[test]
fn the_search_goes_on_behind_a_name() {
    // the second keyword is the name of the first, and is not searched again
    let a = analyze("extern crate extern crate;").unwrap();
    assert_eq!(a.declared_external_deps, strings(&["extern"]));
}

#[test]
fn positions_count_characters() {
    assert_eq!(analyze("// ä\nextern crate").err(), Some(ParseError::MissingName { at: 5 }));
}

#[test]
fn name_characters() {
    for c in ['a', 'z', 'A', 'Z', '0', '9', '_'] {
        assert!(char_is_name(c));
    }
    for c in [' ', ';', '-', ':', 'ä', '\n', '`', '{', '@', '[', '/'] {
        assert!(!char_is_name(c));
    }
}
