use easy_shortcuts::toolchain::shell_text;
use easy_shortcuts::traits::{FileKind, Metadata, MetadataLike};
use easy_shortcuts::{read_to_string, shell, write_all};

#[test]
fn read_to_string_decodes_text() {
    assert_eq!(read_to_string("p", b"plain".to_vec()), Ok("plain".to_string()));
    assert_eq!(read_to_string("p", vec![0xc3, 0xa4, 0x21]), Ok("ä!".to_string()));
    assert_eq!(read_to_string("p", Vec::new()), Ok(String::new()));
}

#[test]
fn read_to_string_gives_up_on_what_is_no_text() {
    let e = read_to_string("lines", vec![0x66, 0xff, 0x6f]).unwrap_err();
    assert_eq!(e.message, "lines error: stream did not contain valid UTF-8\n");
    assert_eq!(e.code, 1);
    // an encoding that is longer than needed, and half a character
    assert!(read_to_string("p", vec![0xc0, 0x80]).is_err());
    assert!(read_to_string("p", vec![0xe2, 0x82]).is_err());
}

#[test]
fn write_all_encodes_text() {
    assert_eq!(write_all("fn main() {}".to_string()), b"fn main() {}".to_vec());
    assert_eq!(write_all("€".to_string()), vec![0xe2, 0x82, 0xac]);
    assert_eq!(write_all(String::new()), Vec::<u8>::new());
}

#[test]
fn what_was_written_reads_back() {
    for s in ["", "a", "grüße\n", "日本語 text", "\u{10ffff}"] {
        assert_eq!(read_to_string("p", write_all(s.to_string())), Ok(s.to_string()));
    }
}

#[test]
fn shell_sends_errors_to_the_output() {
    let c = shell("rustc -V");
    assert_eq!(c.program, "sh");
    assert_eq!(c.args, vec!["-c".to_string(), "rustc -V 2>&1".to_string()]);
    assert!(c.env.is_empty());
}

#[test]
fn shell_text_drops_the_line_feeds_at_the_end() {
    assert_eq!(shell_text("p", b"/opt/rust\n".to_vec()), Ok("/opt/rust".to_string()));
    assert_eq!(shell_text("p", b"a\nb\n\n\n".to_vec()), Ok("a\nb".to_string()));
    assert_eq!(shell_text("p", b"\n".to_vec()), Ok(String::new()));
    assert_eq!(shell_text("p", b"no feed".to_vec()), Ok("no feed".to_string()));
    assert_eq!(shell_text("p", b"kept\r\n".to_vec()), Ok("kept\r".to_string()));
}

#[test]
fn shell_text_gives_up_on_what_is_no_text() {
    let e = shell_text("runner", vec![0x80]).unwrap_err();
    assert_eq!(e.message, "runner error: invalid utf-8\n");
    assert_eq!(e.code, 1);
}

#[test]
fn metadata_of_a_directory_and_of_a_file() {
    let dir: Result<Metadata, String> = Ok(Metadata { kind: FileKind::Dir, len: 0 });
    assert!(dir.clone().is_dir());
    assert!(!dir.is_file());
    let file: Result<Metadata, String> = Ok(Metadata { kind: FileKind::File, len: 12 });
    assert!(file.clone().is_file());
    assert!(!file.is_dir());
    let other: Result<Metadata, String> = Ok(Metadata { kind: FileKind::Other, len: 0 });
    assert!(!other.clone().is_file());
    assert!(!other.is_dir());
}

#[test]
fn metadata_that_could_not_be_had_is_neither() {
    let missing: Result<Metadata, String> = Err("not found".to_string());
    assert!(!missing.clone().is_dir());
    assert!(!missing.is_file());
}
