use hx_diff::text::{parent_dir, split_lines, starts_with, tokens, trim_end};

#[test]
fn split_lines_basic() {
    assert_eq!(split_lines("a\nb\nc\n"), vec!["a", "b", "c"]);
}

#[test]
fn split_lines_without_final_newline() {
    assert_eq!(split_lines("a\nb"), vec!["a", "b"]);
}

#[test]
fn split_lines_strips_carriage_returns() {
    assert_eq!(split_lines("a\r\nb\r\n"), vec!["a", "b"]);
}

#[test]
fn split_lines_keeps_empty_lines_between_content() {
    assert_eq!(split_lines("a\n\nb\n"), vec!["a", "", "b"]);
}

#[test]
fn split_lines_of_empty_text() {
    assert_eq!(split_lines(""), Vec::<String>::new());
}

#[test]
fn tokens_split_on_runs_of_whitespace() {
    assert_eq!(tokens("  one\t two   three "), vec!["one", "two", "three"]);
}

#[test]
fn tokens_of_blank_text() {
    assert_eq!(tokens("   \t "), Vec::<String>::new());
}

#[test]
fn tokens_handle_wide_characters() {
    assert_eq!(tokens("héllo wörld"), vec!["héllo", "wörld"]);
}

#[test]
fn starts_with_prefixes() {
    assert!(starts_with("# branch.oid abc", "# branch.oid "));
    assert!(!starts_with("# branch.oid", "# branch.oid "));
    assert!(!starts_with("1 A.", "2 "));
    assert!(starts_with("anything", ""));
}

#[test]
fn trim_end_removes_trailing_blanks() {
    assert_eq!(trim_end("text  \t\r\n"), "text");
    assert_eq!(trim_end("  keep leading  "), "  keep leading");
    assert_eq!(trim_end("\n\n"), "");
    assert_eq!(trim_end(""), "");
}

#[test]
fn parent_dir_of_paths() {
    assert_eq!(parent_dir("a/b/c.rs"), "a/b");
    assert_eq!(parent_dir("a/b"), "a");
    assert_eq!(parent_dir("file.rs"), "");
    assert_eq!(parent_dir(""), "");
}
