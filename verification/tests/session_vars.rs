use embucket::sql::{
    alter_session_statement, current_database, get_session_variable, set_session_variable, set_statement, use_statement,
    QueryError, UseEntity,
};
use embucket::types::{Column, ColumnData, DataType, Field, RecordBatch};

fn s(x: &str) -> String {
    x.to_string()
}

#[test]
fn use_database_sets_the_session_variable() {
    let mut vars: Vec<(String, String)> = Vec::new();
    assert_eq!(use_statement(&mut vars, &UseEntity::Database(s("mydb"))), Ok(()));
    assert_eq!(get_session_variable(&vars, "database"), Some(s("mydb")));
    assert_eq!(current_database(&None, &vars), s("mydb"));
    assert_eq!(use_statement(&mut vars, &UseEntity::Database(s("other"))), Ok(()));
    assert_eq!(get_session_variable(&vars, "database"), Some(s("other")));
    assert_eq!(vars.len(), 1);
    assert_eq!(use_statement(&mut vars, &UseEntity::Default), Err(QueryError::OnlyUseWithVariables));
    assert_eq!(vars.len(), 1);
}

#[test]
fn set_and_alter_session_split_engine_options() {
    let mut vars: Vec<(String, String)> = Vec::new();
    let engine = set_statement(
        &mut vars,
        &vec![s("v1"), s("DataFusion.execution.batch_size"), s("v2")],
        &vec![Some(s("a")), Some(s("8192")), Some(s("b"))],
    )
    .unwrap();
    assert_eq!(engine, vec![(s("DataFusion.execution.batch_size"), s("8192"))]);
    assert_eq!(get_session_variable(&vars, "v1"), Some(s("a")));
    assert_eq!(get_session_variable(&vars, "v2"), Some(s("b")));
    assert_eq!(get_session_variable(&vars, "DataFusion.execution.batch_size"), None);
    assert_eq!(
        set_statement(&mut vars, &vec![s("v3")], &vec![None]),
        Err(QueryError::OnlyPrimitiveStatements)
    );
    assert_eq!(get_session_variable(&vars, "v3"), None);

    let removed = alter_session_statement(&mut vars, false, &vec![(s("v1"), s(""))]);
    assert!(removed.is_empty());
    assert_eq!(get_session_variable(&vars, "v1"), None);
    assert_eq!(get_session_variable(&vars, "v2"), Some(s("b")));
    let engine = set_session_variable(&mut vars, true, &vec![(s("timezone"), s("UTC")), (s("datafusion.x"), s("1"))]);
    assert_eq!(engine, vec![(s("datafusion.x"), s("1"))]);
    assert_eq!(get_session_variable(&vars, "timezone"), Some(s("UTC")));
}

#[test]
fn batch_well_formedness_check() {
    let good = RecordBatch {
        schema: vec![Field::new(s("a"), DataType::Int8, false)],
        columns: vec![Column { data_type: DataType::Int8, data: ColumnData::Ints(vec![Some(1), Some(-5)]) }],
    };
    assert!(good.is_wf());
    let out_of_range = RecordBatch {
        schema: vec![Field::new(s("a"), DataType::Int8, true)],
        columns: vec![Column { data_type: DataType::Int8, data: ColumnData::Ints(vec![Some(300)]) }],
    };
    assert!(!out_of_range.is_wf());
    let null_in_non_nullable = RecordBatch {
        schema: vec![Field::new(s("a"), DataType::Utf8, false)],
        columns: vec![Column { data_type: DataType::Utf8, data: ColumnData::Texts(vec![None]) }],
    };
    assert!(!null_in_non_nullable.is_wf());
    let bad_union = Column { data_type: DataType::Union, data: ColumnData::Union(vec![0, 1], vec![]) };
    assert!(!bad_union.is_wf());
}
