use easy_shortcuts::traits::{Print, PrintDbg};

#[test]
fn print_puts_the_delimiter_behind_each_value() {
    let text = [10, 20, 30].into_iter().print("\n");
    assert_eq!(text, "10\n20\n30\n");
}

#[test]
fn print_of_nothing_writes_nothing() {
    let none: Vec<u32> = Vec::new();
    assert_eq!(none.into_iter().print(", "), "");
}

#[test]
fn debug_shows_each_value_for_debugging() {
    let text = (0..3).map(|n| (n, 2 * n)).debug("\n");
    assert_eq!(text, "(0, 0)\n(1, 2)\n(2, 4)\n");
}

#[test]
fn debug_quotes_strings() {
    let text = vec!["a", "b"].into_iter().debug(";");
    assert_eq!(text, "\"a\";\"b\";");
}
