use doxcer::markdown::format_definitions_as_markdown_table;

#[test]
fn definitions_markdown_table_returns_info_for_empty_columns() {
    let result = format_definitions_as_markdown_table(&[], &[]);
    assert_eq!(result, "[INF] - No definition rows returned.");
}

#[test]
fn definitions_markdown_table_renders_header_and_separator() {
    let columns = vec!["col_a".to_string(), "col_b".to_string()];
    let rows: Vec<Vec<String>> = Vec::new();

    let result = format_definitions_as_markdown_table(&columns, &rows);
    let expected = "| col_a | col_b |\n| --- | --- |\n";

    assert_eq!(result, expected);
}

#[test]
fn definitions_markdown_table_escapes_pipe_and_newline_characters() {
    let columns = vec!["name|raw".to_string(), "description".to_string()];
    let rows = vec![vec![
        "left|value".to_string(),
        "line1\nline2\rline3".to_string(),
    ]];

    let result = format_definitions_as_markdown_table(&columns, &rows);
    let expected =
        "| name\\|raw | description |\n| --- | --- |\n| left\\|value | line1 line2 line3 |\n";

    assert_eq!(result, expected);
}

#[test]
fn definitions_markdown_table_pads_missing_cells_and_ignores_extra_cells() {
    let columns = vec!["a".to_string(), "b".to_string()];
    let rows = vec![
        vec!["only-a".to_string()],
        vec!["a2".to_string(), "b2".to_string(), "extra".to_string()],
    ];

    let result = format_definitions_as_markdown_table(&columns, &rows);
    let expected = "| a | b |\n| --- | --- |\n| only-a |  |\n| a2 | b2 |\n";

    assert_eq!(result, expected);
}

#[test]
fn definitions_markdown_table_ignores_rows_when_columns_are_empty() {
    let rows = vec![vec!["val".to_string(), "other".to_string()]];
    let result = format_definitions_as_markdown_table(&[], &rows);
    assert_eq!(result, "[INF] - No definition rows returned.");
}
