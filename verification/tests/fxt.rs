use cleo::text::fxt::{fxt_entries, load_fxt};
use cleo::text::CustomStrings;

fn pairs(v: &[(&str, &str)]) -> Vec<(String, String)> {
    v.iter().map(|(k, t)| (k.to_string(), t.to_string())).collect()
}

#[test]
fn entries_are_key_space_text() {
    assert_eq!(
        fxt_entries("CLEO_1 Hello world\nCLEO_2 Second\n"),
        pairs(&[("CLEO_1", "Hello world"), ("CLEO_2", "Second")])
    );
}

#[test]
fn comments_and_blank_lines_are_skipped() {
    let text = "// a comment\n\n   \nKEY1 text // trailing\n# hash comment\nKEY2 a#b\nKEY3 http://x\n";
    assert_eq!(
        fxt_entries(text),
        pairs(&[("KEY1", "text"), ("KEY2", "a"), ("KEY3", "http:")])
    );
}

#[test]
fn white_space_is_trimmed_and_crlf_handled() {
    assert_eq!(
        fxt_entries("  KEY   spaced text \t\r\nLAST value"),
        pairs(&[("KEY", "  spaced text"), ("LAST", "value")])
    );
    assert_eq!(fxt_entries("\u{3000}K v\u{a0}"), pairs(&[("K", "v")]));
}

#[test]
fn lines_without_a_space_are_ignored() {
    assert_eq!(fxt_entries("NOSPACE\nTAB\tvalue\nOK yes"), pairs(&[("OK", "yes")]));
    assert_eq!(fxt_entries(""), pairs(&[]));
}

#[test]
fn loading_counts_overwrites() {
    let mut strings = CustomStrings::new();
    assert_eq!(load_fxt(&mut strings, "A one\nB two\nA uno\n"), 1);
    assert_eq!(strings.get("A"), Some(&vec![0x75, 0x6e, 0x6f, 0]));
    assert_eq!(strings.get("B"), Some(&vec![0x74, 0x77, 0x6f, 0]));
    assert_eq!(load_fxt(&mut strings, "B deux\nC trois"), 1);
    assert_eq!(strings.get("C"), Some(&vec![0x74, 0x72, 0x6f, 0x69, 0x73, 0]));
}
