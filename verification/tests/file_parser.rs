use csv_chart::file_parser::{attributes, extract_data, file_content_integrity_check, rows_fit_header};

#[test]
fn attributes_of_a_header() {
    assert_eq!(attributes("\"Time (s)\",speed,load\n0,1,2\n"), vec!["speed", "load"]);
}

#[test]
fn attributes_of_a_time_only_header() {
    assert_eq!(attributes("t\n1\n"), Vec::<&str>::new());
}

#[test]
fn attributes_keep_empty_fields_and_carriage_returns() {
    assert_eq!(attributes("t,,x\r\n1,2,3\r\n"), vec!["", "x\r"]);
}

#[test]
fn attribute_count_matches_columns() {
    let text = "t,a,b\n1,2,3\n";
    assert_eq!(attributes(text).len() + 1, extract_data(text).len());
}

#[test]
fn integrity_check_turns_down_texts_of_ordinary_length() {
    assert!(!file_content_integrity_check("\"Time (s)\",a\n0,1\n"));
    assert!(!file_content_integrity_check(""));
    assert!(!file_content_integrity_check("x"));
}

#[test]
fn extract_data_by_columns() {
    let cols = extract_data("t,a\n1,2\n3,4");
    assert_eq!(cols, vec![vec!["1".to_string(), "3".to_string()], vec!["2".to_string(), "4".to_string()]]);
}

#[test]
fn extract_data_with_trailing_line_break() {
    let cols = extract_data("t,a\n1,2\n");
    assert_eq!(cols, vec![vec!["1".to_string(), "".to_string()], vec!["2".to_string()]]);
}

#[test]
fn extract_data_short_rows() {
    let cols = extract_data("t,a,b\n1\n2,3\n4,5,6");
    assert_eq!(cols.len(), 3);
    assert_eq!(cols[0], vec!["1", "2", "4"]);
    assert_eq!(cols[1], vec!["3", "5"]);
    assert_eq!(cols[2], vec!["6"]);
}

#[test]
fn extract_data_header_only() {
    let cols = extract_data("t,a");
    assert_eq!(cols, vec![Vec::<String>::new(), Vec::<String>::new()]);
}

#[test]
fn rows_fit_header_detects_wide_rows() {
    assert!(rows_fit_header("t,a\n1,2\n3"));
    assert!(!rows_fit_header("t,a\n1,2,3\n"));
    assert!(rows_fit_header(""));
}
