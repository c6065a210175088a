use embucket::sql::{stage_csv_options, FormatOption};

fn opt(name: &str, value: &str) -> FormatOption {
    FormatOption { option_name: name.to_string(), value: value.to_string() }
}

#[test]
fn stage_csv_options_read_header_and_quote() {
    assert_eq!(stage_csv_options(&vec![]), (false, b'"'));
    assert_eq!(stage_csv_options(&vec![opt("SKIP_HEADER", "1"), opt("field_optionally_enclosed_by", "'")]), (true, b'\''));
    assert_eq!(stage_csv_options(&vec![opt("skip_header", "0")]), (false, b'"'));
}

#[test]
fn empty_quote_option_falls_back_to_double_quote() {
    assert_eq!(stage_csv_options(&vec![opt("FIELD_OPTIONALLY_ENCLOSED_BY", "")]), (false, b'"'));
    assert_eq!(
        stage_csv_options(&vec![opt("FIELD_OPTIONALLY_ENCLOSED_BY", ""), opt("FIELD_OPTIONALLY_ENCLOSED_BY", "'")]),
        (false, b'"')
    );
}
