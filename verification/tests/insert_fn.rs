use embucket::builtins::{insert_str, insert_strings, DateAddFunc, Insert, InsertError};
use embucket::types::{DataType, TimeUnit};

fn one_row(base: Option<&str>, pos: Option<i64>, len: Option<i64>, ins: Option<&str>) -> Result<Vec<Option<String>>, InsertError> {
    insert_strings(
        &vec![base.map(|s| s.to_string())],
        &vec![pos],
        &vec![len],
        &vec![ins.map(|s| s.to_string())],
    )
}

#[test]
fn test_it_works() {
    assert_eq!(one_row(Some("abc"), Some(1), Some(2), Some("Z")), Ok(vec![Some("Zc".to_string())]));
    assert_eq!(one_row(Some("abcdef"), Some(3), Some(2), Some("zzz")), Ok(vec![Some("abzzzef".to_string())]));
    assert_eq!(one_row(Some("abc"), Some(2), Some(1), Some("")), Ok(vec![Some("ac".to_string())]));
    assert_eq!(one_row(Some("abc"), Some(4), Some(0), Some("Z")), Ok(vec![Some("abcZ".to_string())]));
    assert_eq!(one_row(None, Some(1), Some(2), Some("Z")), Ok(vec![None]));
    assert_eq!(one_row(Some("abc"), None, Some(2), Some("Z")), Ok(vec![None]));
    assert_eq!(one_row(Some("abc"), Some(1), None, Some("Z")), Ok(vec![None]));
    assert_eq!(one_row(Some("abc"), Some(1), Some(2), None), Ok(vec![None]));
}

#[test]
fn test_invalid_pos_fails() {
    // pos less than 1
    assert_eq!(one_row(Some("abc"), Some(0), Some(2), Some("Z")), Err(InsertError::InvalidPosition));
    // pos beyond one more than the length of the string
    assert_eq!(one_row(Some("abc"), Some(5), Some(2), Some("Z")), Err(InsertError::InvalidPosition));
    // Setting pos to one more than the length of the string means that len must be 0
    assert_eq!(one_row(Some("abc"), Some(4), Some(1), Some("Z")), Err(InsertError::InvalidLength));
}

#[test]
fn test_invalid_len_fails() {
    // Length is outside valid range from 0 to number of characters between pos and end of the string
    assert_eq!(one_row(Some("abc"), Some(1), Some(50), Some("Z")), Err(InsertError::InvalidLength));
}

#[test]
fn insert_negative_length_fails() {
    assert_eq!(insert_str("abc", 1, -1, "Z"), Err(InsertError::InvalidLength));
}

#[test]
fn insert_counts_characters_not_bytes() {
    assert_eq!(insert_str("héllo", 3, 1, "L"), Ok("héLlo".to_string()));
    assert_eq!(insert_str("héllo", 6, 0, "!"), Ok("héllo!".to_string()));
    assert_eq!(insert_str("héllo", 7, 0, "!"), Err(InsertError::InvalidPosition));
}

#[test]
fn insert_at_end_appends() {
    assert_eq!(insert_str("abc", 4, 0, "def"), Ok("abcdef".to_string()));
}

#[test]
fn insert_over_columns_stops_at_first_error_and_shortest_column() {
    let r = insert_strings(
        &vec![Some("ab".to_string()), Some("xy".to_string()), Some("pq".to_string())],
        &vec![Some(1), Some(9), Some(1)],
        &vec![Some(0), Some(0), Some(0)],
        &vec![Some("-".to_string()), Some("-".to_string()), Some("-".to_string())],
    );
    assert_eq!(r, Err(InsertError::InvalidPosition));
    let r = insert_strings(
        &vec![Some("ab".to_string()), Some("xy".to_string())],
        &vec![Some(1), Some(2), Some(3)],
        &vec![Some(0), Some(1)],
        &vec![Some("-".to_string()), Some("+".to_string())],
    );
    assert_eq!(r, Ok(vec![Some("-ab".to_string()), Some("x+".to_string())]));
}

#[test]
fn insert_function_signature() {
    let f = Insert::new();
    assert_eq!(f.name(), "insert");
    assert_eq!(f.return_type(), DataType::Utf8);
}

#[test]
fn dateadd_returns_the_third_argument_type() {
    let f = DateAddFunc::new();
    assert_eq!(f.name(), "dateadd");
    let t = f.return_type(&vec![
        DataType::Duration(TimeUnit::Second),
        DataType::Int64,
        DataType::Timestamp(TimeUnit::Second, None),
    ]);
    assert_eq!(t, DataType::Timestamp(TimeUnit::Second, None));
}
