use doxcer::cleaner::{collapse_blank_lines, is_metadata_line, strip_notebook_metadata};

#[test]
fn is_metadata_line_detects_supported_prefixes() {
    assert!(is_metadata_line("# METADATA x"));
    assert!(is_metadata_line("  # META y"));
    assert!(is_metadata_line("\t# CELL 2"));
    assert!(!is_metadata_line("print('hello')"));
    assert!(!is_metadata_line("#METADATA"));
}

#[test]
fn strip_notebook_metadata_removes_only_metadata_lines() {
    let source = "# METADATA a\nprint('x')\n# META b\n# CELL c\nprint('y')";
    let cleaned = strip_notebook_metadata(source);
    assert_eq!(cleaned, "print('x')\nprint('y')");
}

#[test]
fn collapse_blank_lines_reduces_consecutive_blank_runs() {
    let source = "line1\n\n\nline2\n   \n\t\nline3";
    let collapsed = collapse_blank_lines(source);
    assert_eq!(collapsed, "line1\n\nline2\n   \nline3");
}

#[test]
fn strip_notebook_metadata_twice_equals_once() {
    let source = "# METADATA a\nprint('x')\n\n  # CELL code\nprint('y')\n# META z";
    let once = strip_notebook_metadata(source);
    let twice = strip_notebook_metadata(&once);
    assert_eq!(twice, once);
}

#[test]
fn collapse_blank_lines_twice_equals_once() {
    let source = "a\n\n\n\nb\n \n\t\n\nc";
    let once = collapse_blank_lines(source);
    let twice = collapse_blank_lines(&once);
    assert_eq!(twice, once);
    assert!(once.lines().count() <= source.lines().count());
}

#[test]
fn strip_notebook_metadata_keeps_crlf_text_lines() {
    let source = "# META a\r\nkeep\r\nalso";
    let cleaned = strip_notebook_metadata(source);
    assert_eq!(cleaned, "keep\nalso");
}

#[test]
fn strip_notebook_metadata_of_empty_text_is_empty() {
    assert_eq!(strip_notebook_metadata(""), "");
    assert_eq!(collapse_blank_lines(""), "");
}

#[test]
fn collapse_blank_lines_keeps_first_blank_of_run_verbatim() {
    let source = "a\n  \n\t\n\nb";
    let collapsed = collapse_blank_lines(source);
    assert_eq!(collapsed, "a\n  \nb");
}

#[test]
fn is_metadata_line_requires_space_after_hash() {
    assert!(!is_metadata_line("#META"));
    assert!(!is_metadata_line("## METADATA"));
    assert!(is_metadata_line("# METADATAX"));
}
