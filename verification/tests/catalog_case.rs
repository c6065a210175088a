use embucket::catalog::{case_sensitive_schema, normalize_schema_case, remove_columns_from_batches, CaseInsensitiveTable};
use embucket::types::{Column, ColumnData, DataType, Field, RecordBatch};

fn f(name: &str) -> Field {
    Field::new(name.to_string(), DataType::Int64, true)
}

#[test]
fn schema_names_are_lower_cased() {
    let n = normalize_schema_case(&vec![f("ID"), f("Name"), f("x_1")]);
    let names: Vec<&str> = n.iter().map(|f| f.name.as_str()).collect();
    assert_eq!(names, vec!["id", "name", "x_1"]);
}

#[test]
fn upper_case_names_mark_a_case_sensitive_schema() {
    assert!(case_sensitive_schema(&vec![f("id"), f("NAME")]));
    assert!(!case_sensitive_schema(&vec![f("id"), f("Name")]));
    assert!(!case_sensitive_schema(&vec![]));
}

#[test]
fn case_insensitive_table_maps_names_back() {
    let t = CaseInsensitiveTable::new(vec![f("ID"), f("AMOUNT")]);
    assert!(t.requires_case_rewrite);
    assert_eq!(t.rewrite_column_name(&"amount".to_string()), "AMOUNT");
    assert_eq!(t.rewrite_column_name(&"other".to_string()), "other");
    assert_eq!(t.scan_output_names(&None), vec!["id".to_string(), "amount".to_string()]);
    assert_eq!(t.scan_output_names(&Some(vec![1])), vec!["amount".to_string()]);
}

fn batch() -> RecordBatch {
    let ints = |v: i64| Column { data_type: DataType::Int64, data: ColumnData::Ints(vec![Some(v)]) };
    RecordBatch::try_new(vec![f("a"), f("b"), f("c")], vec![ints(1), ints(2), ints(3)]).unwrap()
}

#[test]
fn excluded_columns_are_removed() {
    let out = remove_columns_from_batches(vec![batch(), batch()], &vec!["b".to_string()]);
    assert_eq!(out.len(), 2);
    for b in &out {
        let names: Vec<&str> = b.schema.iter().map(|f| f.name.as_str()).collect();
        assert_eq!(names, vec!["a", "c"]);
        assert_eq!(b.columns.len(), 2);
        assert!(matches!(&b.columns[1].data, ColumnData::Ints(v) if v == &vec![Some(3)]));
    }
}
