use eqapo_gui::csv::escape_csv_field;

#[test]
fn escape_csv_field_no_special_chars() {
    assert_eq!(escape_csv_field("simple text"), "simple text");
}

#[test]
fn escape_csv_field_with_comma() {
    assert_eq!(escape_csv_field("hello, world"), "\"hello, world\"");
}

#[test]
fn escape_csv_field_with_quotes() {
    assert_eq!(escape_csv_field("say \"hello\""), "\"say \"\"hello\"\"\"");
}

#[test]
fn escape_csv_field_with_newline() {
    assert_eq!(escape_csv_field("line1\nline2"), "\"line1\nline2\"");
}

#[test]
fn escape_csv_field_with_all_special() {
    assert_eq!(
        escape_csv_field("\"hello\", world\n"),
        "\"\"\"hello\"\", world\n\""
    );
}

#[test]
fn escape_csv_field_with_carriage_return() {
    assert_eq!(escape_csv_field("a\rb"), "\"a\rb\"");
}

#[test]
fn escape_csv_field_empty() {
    assert_eq!(escape_csv_field(""), "");
}

#[test]
fn escape_csv_field_non_ascii_untouched() {
    assert_eq!(escape_csv_field("Größe"), "Größe");
    assert_eq!(escape_csv_field("é,\"ü\""), "\"é,\"\"ü\"\"\"");
}
