use embucket::qualify::{BinaryOperator, FromItem, Query, Select, SelectItem, SetExpr, SqlExpr};
use embucket::sql::{ctas_action, prepare_create_table, CreateTableStmt, CtasAction, Ident, QueryError};

fn ident(s: &str) -> Ident {
    Ident::new(s.to_string())
}

fn stmt(name: Vec<Ident>, query: Option<Query>) -> CreateTableStmt {
    CreateTableStmt {
        name,
        location: None,
        base_location: Some("s3://bucket/base".to_string()),
        transient: true,
        iceberg: true,
        external_volume: Some("vol".to_string()),
        catalog: Some("SNOWFLAKE".to_string()),
        catalog_sync: Some("sync".to_string()),
        storage_serialization_policy: Some("COMPATIBLE".to_string()),
        cluster_by: Some(vec!["a".to_string()]),
        query,
    }
}

#[test]
fn create_table_is_resolved_and_cleared() {
    let (t, location) = prepare_create_table(stmt(vec![ident("T1")], None), &"db".to_string(), &"sch".to_string(), true).unwrap();
    assert_eq!(location, Some("s3://bucket/base".to_string()));
    let names: Vec<String> = t.name.iter().map(|i| i.value.clone()).collect();
    assert_eq!(names, vec!["db".to_string(), "sch".to_string(), "t1".to_string()]);
    assert!(!t.transient && !t.iceberg);
    assert!(t.base_location.is_none() && t.external_volume.is_none() && t.catalog.is_none());
    assert!(t.catalog_sync.is_none() && t.storage_serialization_policy.is_none() && t.cluster_by.is_none());
    assert!(t.query.is_none());

    let mut with_location = stmt(vec![ident("a"), ident("b"), ident("c")], None);
    with_location.location = Some("s3://bucket/own".to_string());
    let (t, location) = prepare_create_table(with_location, &"db".to_string(), &"sch".to_string(), false).unwrap();
    assert_eq!(location, Some("s3://bucket/own".to_string()));
    assert_eq!(t.location, Some("s3://bucket/own".to_string()));

    let too_long = stmt(vec![ident("a"), ident("b"), ident("c"), ident("d")], None);
    assert!(matches!(
        prepare_create_table(too_long, &"db".to_string(), &"sch".to_string(), true),
        Err(QueryError::InvalidTableIdentifier { .. })
    ));
}

#[test]
fn ctas_query_gets_its_qualify_rewritten() {
    let q = Query {
        with: vec![],
        body: Box::new(SetExpr::Select(Box::new(Select {
            projection: vec![SelectItem::UnnamedExpr(SqlExpr::Identifier("a".to_string()))],
            from: vec![FromItem::Table("t".to_string())],
            selection: None,
            qualify: Some(SqlExpr::BinaryOp {
                left: Box::new(SqlExpr::Other("row_number() over (order by a)".to_string())),
                op: BinaryOperator::Eq,
                right: Box::new(SqlExpr::Other("1".to_string())),
            }),
        }))),
    };
    let (t, _) = prepare_create_table(stmt(vec![ident("t")], Some(q)), &"db".to_string(), &"sch".to_string(), true).unwrap();
    let Some(q) = t.query else { panic!("query expected") };
    let SetExpr::Select(outer) = *q.body else { panic!("select expected") };
    assert!(outer.qualify.is_none());
    assert!(outer.selection.is_some());
}

#[test]
fn ctas_inserts_only_a_non_empty_query() {
    assert_eq!(ctas_action(true, false), CtasAction::InsertInput);
    assert_eq!(ctas_action(true, true), CtasAction::Created);
    assert_eq!(ctas_action(false, false), CtasAction::Created);
}
