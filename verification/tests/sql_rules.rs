use embucket::sql::{
    build_starts_with_filter, create_schema_outcome, create_table_outcome, current_database, current_schema, drop_target,
    escape_single_quotes, get_session_variable, join_strings, partition_session_params, resolve_show_in_name, schema_exists,
    show_query_sql, stage_table_name, CreateOutcome, DropTarget, Ident, ObjectType, QueryError, ShowIn, ShowStatement,
    SqlValue,
};

fn s(x: &str) -> String {
    x.to_string()
}

#[test]
fn quotes_are_doubled() {
    assert_eq!(escape_single_quotes("it's"), "it''s");
    assert_eq!(escape_single_quotes("''"), "''''");
    assert_eq!(escape_single_quotes("plain"), "plain");
}

#[test]
fn starts_with_becomes_a_like_filter() {
    assert_eq!(
        build_starts_with_filter(&Some(SqlValue::SingleQuotedString(s("a'b"))), "table_name"),
        Some(s("table_name LIKE 'a''b%'"))
    );
    assert_eq!(build_starts_with_filter(&Some(SqlValue::Other), "table_name"), None);
    assert_eq!(build_starts_with_filter(&None, "table_name"), None);
}

#[test]
fn context_then_session_then_default() {
    let vars = vec![(s("database"), s("first")), (s("database"), s("second"))];
    assert_eq!(current_database(&Some(s("ctx")), &vars), "ctx");
    assert_eq!(current_database(&None, &vars), "second");
    assert_eq!(current_database(&None, &vec![]), "embucket");
    assert_eq!(current_schema(&None, &vec![]), "public");
    assert_eq!(get_session_variable(&vars, "database"), Some(s("second")));
    assert_eq!(get_session_variable(&vars, "schema"), None);
}

#[test]
fn show_in_names_are_completed_from_the_current_context() {
    let one = Some(ShowIn { parent_name: Some(vec![s("sch")]) });
    assert_eq!(resolve_show_in_name(&one, false, &s("db"), &s("cur")), (s("db"), s("sch"), s("")));
    assert_eq!(resolve_show_in_name(&one, true, &s("db"), &s("cur")), (s("db"), s("cur"), s("sch")));
    let two = Some(ShowIn { parent_name: Some(vec![s("d2"), s("s2")]) });
    assert_eq!(resolve_show_in_name(&two, false, &s("db"), &s("cur")), (s("d2"), s("s2"), s("")));
    assert_eq!(resolve_show_in_name(&None, false, &s("db"), &s("cur")), (s("db"), s(""), s("")));
}

#[test]
fn show_tables_query() {
    let stmt = ShowStatement::Tables {
        show_in: Some(ShowIn { parent_name: Some(vec![s("sales")]) }),
        starts_with: Some(SqlValue::SingleQuotedString(s("ord"))),
    };
    let q = show_query_sql(&stmt, &s("embucket"), &s("public")).unwrap();
    assert!(q.contains("FROM embucket.information_schema.tables"));
    assert!(q.ends_with(" WHERE table_type = 'TABLE' AND table_name LIKE 'ord%' AND table_schema = 'sales'"));
    let q = show_query_sql(&ShowStatement::Databases, &s("embucket"), &s("public")).unwrap();
    assert!(q.ends_with("FROM embucket.information_schema.databases"));
    assert!(matches!(
        show_query_sql(&ShowStatement::Other { text: s("SHOW GRANTS") }, &s("d"), &s("s")),
        Err(QueryError::UnsupportedShowStatement { .. })
    ));
}

#[test]
fn create_outcomes() {
    assert_eq!(create_table_outcome(false, false, false, &s("t")), Ok(CreateOutcome::Create));
    assert_eq!(create_table_outcome(true, true, false, &s("t")), Ok(CreateOutcome::AlreadyExists));
    assert_eq!(create_table_outcome(true, false, true, &s("t")), Ok(CreateOutcome::Replace));
    assert_eq!(
        create_table_outcome(true, false, false, &s("t")),
        Err(QueryError::ObjectAlreadyExists { object_type: s("table"), name: s("t") })
    );
    assert_eq!(
        create_schema_outcome(true, false, &s("sc")),
        Err(QueryError::ObjectAlreadyExists { object_type: s("schema"), name: s("sc") })
    );
    assert_eq!(create_schema_outcome(false, false, &s("sc")), Ok(CreateOutcome::Create));
}

#[test]
fn schemas_are_found_by_their_joined_namespace() {
    let namespaces = vec![vec![s("a")], vec![s("b"), s("c")]];
    assert!(schema_exists(&namespaces, "b.c"));
    assert!(!schema_exists(&namespaces, "c"));
    assert_eq!(join_strings(&vec![s("x"), s("y"), s("z")], ", "), "x, y, z");
}

#[test]
fn drop_targets() {
    assert_eq!(drop_target(ObjectType::View), Ok(DropTarget::Table));
    assert_eq!(drop_target(ObjectType::Schema), Ok(DropTarget::Namespace));
    assert_eq!(drop_target(ObjectType::Other), Err(QueryError::OnlyDropStatements));
}

#[test]
fn session_changes_split_engine_options_from_variables() {
    let params = vec![(s("DataFusion.execution.batch_size"), s("10")), (s("my_var"), s("1")), (s("datafusion.x"), s("y"))];
    let (engine, session) = partition_session_params(params);
    assert_eq!(engine, vec![(s("DataFusion.execution.batch_size"), s("10")), (s("datafusion.x"), s("y"))]);
    assert_eq!(session, vec![(s("my_var"), s("1"))]);
}

#[test]
fn stage_table_is_the_last_name_part() {
    assert_eq!(stage_table_name(&vec![Ident::new(s("db")), Ident::new(s("stage"))]), Ok(s("stage")));
    assert!(matches!(stage_table_name(&vec![]), Err(QueryError::InvalidTableIdentifier { .. })));
}
