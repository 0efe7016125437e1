//! Tests for path classification, hexadecimal rendering and annotation
//! formatting.

use eips_build::annotate::command_line;
use eips_build::annotate::command_word;
use eips_build::annotate::escape_data;
use eips_build::annotate::escape_property;
use eips_build::annotate::Annotation;
use eips_build::annotate::Reporter;
use eips_build::annotate::Severity;
use eips_build::hex::hex_string;
use eips_build::repo::any_dirty;
use eips_build::paths::is_proposal_path;
use eips_build::paths::is_root;
use eips_build::paths::parse_u64_digits;

#[test]
fn proposal_paths_are_recognised() {
    assert!(is_proposal_path(&b"content/00001.md".to_vec()));
    assert!(is_proposal_path(&b"content/00001/index.md".to_vec()));
    assert!(is_proposal_path(&b"content/18446744073709551615.md".to_vec()));
}

#[test]
fn non_proposal_paths_are_rejected() {
    assert!(!is_proposal_path(&b"content/index.md".to_vec()));
    assert!(!is_proposal_path(&b"content/.md".to_vec()));
    assert!(!is_proposal_path(&b"assets/00001.md".to_vec()));
    assert!(!is_proposal_path(&b"content/00001.txt".to_vec()));
    assert!(!is_proposal_path(&b"content/00001.tar.md".to_vec()));
    assert!(!is_proposal_path(&b"00001.md".to_vec()));
    assert!(!is_proposal_path(&b"content/00001/foo/index.md".to_vec()));
    assert!(!is_proposal_path(&b"content/99999999999999999999.md".to_vec()));
    assert!(!is_proposal_path(&b"content/00001.md/index.md".to_vec()));
}

#[test]
fn digit_strings_parse_with_overflow_checked() {
    assert_eq!(parse_u64_digits(&b"123".to_vec()), Some(123));
    assert_eq!(parse_u64_digits(&b"00042".to_vec()), Some(42));
    assert_eq!(parse_u64_digits(&b"".to_vec()), None);
    assert_eq!(parse_u64_digits(&b"12a".to_vec()), None);
    assert_eq!(parse_u64_digits(&b"18446744073709551615".to_vec()), Some(u64::MAX));
    assert_eq!(parse_u64_digits(&b"18446744073709551616".to_vec()), None);
}

#[test]
fn root_needs_both_markers() {
    assert!(is_root(true, true));
    assert!(!is_root(true, false));
    assert!(!is_root(false, true));
    assert!(!is_root(false, false));
}

#[test]
fn changes_outside_build_directory_count_as_dirty() {
    assert!(any_dirty(&vec![Some(b"content/00001.md".to_vec())]));
    assert!(any_dirty(&vec![Some(b"build/".to_vec()), Some(b"notes.txt".to_vec())]));
    // Only the build directory itself is spared, not names ending in it.
    assert!(any_dirty(&vec![Some(b"rebuild".to_vec())]));
    assert!(any_dirty(&vec![Some(b"a/rebuild/".to_vec())]));
}

#[test]
fn build_directory_and_unreadable_paths_do_not_count() {
    assert!(!any_dirty(&vec![]));
    assert!(!any_dirty(&vec![Some(b"build/".to_vec())]));
    assert!(!any_dirty(&vec![Some(b"build".to_vec())]));
    assert!(!any_dirty(&vec![Some(b"scratch/build/".to_vec())]));
    assert!(!any_dirty(&vec![None]));
}

#[test]
fn hex_renders_lower_case_pairs() {
    assert_eq!(hex_string(&vec![0xbe, 0xef]), "beef");
    assert_eq!(hex_string(&vec![0x00, 0x0a, 0xff]), "000aff");
    assert_eq!(hex_string(&Vec::new()), "");
}

#[test]
fn property_values_are_escaped() {
    assert_eq!(escape_property("100% : a,b\r\n"), "100%25 %3A a%2Cb%0D%0A");
    assert_eq!(escape_property("plain"), "plain");
}

#[test]
fn messages_keep_colons_and_commas() {
    assert_eq!(escape_data("x:y,z%"), "x:y,z%25");
    assert_eq!(escape_data("a\nb"), "a%0Ab");
}

#[test]
fn annotation_renders_present_fields_in_order() {
    let ann = Annotation::new(Some("t:t".to_string()), Some("f.md".to_string()), Some(3));
    assert_eq!(ann.render(), "title=t%3At,file=f.md,line=3");
    let empty = Annotation::default();
    assert_eq!(empty.render(), "");
}

#[test]
fn annotation_renders_large_numbers() {
    let mut ann = Annotation::default();
    ann.start_line = Some(1234567890);
    ann.end_line = Some(0);
    assert_eq!(ann.render(), "line=1234567890,endLine=0");
}

#[test]
fn command_lines_carry_escaped_message() {
    let ann = Annotation::new(Some("title".to_string()), None, Some(7));
    let line = command_line("error", &ann, "bad\nthing");
    assert_eq!(line, "::error title=title,line=7::bad%0Athing");
}

#[test]
fn severities_map_to_command_words() {
    assert_eq!(command_word(Severity::Help), "notice");
    assert_eq!(command_word(Severity::Note), "notice");
    assert_eq!(command_word(Severity::Info), "notice");
    assert_eq!(command_word(Severity::Warning), "warning");
    assert_eq!(command_word(Severity::Error), "error");
}

#[test]
fn origins_are_stripped_relative_to_root() {
    let reporter = Reporter { root: "/repo".to_string() };
    assert_eq!(reporter.strip_origin("/repo/content/1.md"), Some("content/1.md".to_string()));
    assert_eq!(reporter.strip_origin("/repo"), Some("".to_string()));
    assert_eq!(reporter.strip_origin("/other/x"), None);
    let bare = Reporter { root: "".to_string() };
    assert_eq!(bare.strip_origin("x"), Some("x".to_string()));
}
