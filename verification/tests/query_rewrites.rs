use embucket::catalog::sortable_columns;
use embucket::logical_plan::{is_logical_plan_effectively_empty, LogicalPlan};
use embucket::qualify::{update_qualify_in_query, BinaryOperator, FromItem, Query, Select, SelectItem, SetExpr, SqlExpr};
use embucket::sql::{pivot_values_query, Ident, OrderByItem};
use embucket::types::{DataType, Field};

fn ident(s: &str) -> SqlExpr {
    SqlExpr::Identifier(s.to_string())
}

fn select_with_qualify(op: BinaryOperator) -> Query {
    Query {
        with: vec![],
        body: Box::new(SetExpr::Select(Box::new(Select {
            projection: vec![SelectItem::UnnamedExpr(ident("a"))],
            from: vec![FromItem::Table("t".to_string())],
            selection: None,
            qualify: Some(SqlExpr::BinaryOp {
                left: Box::new(SqlExpr::Other("row_number() over (order by a)".to_string())),
                op,
                right: Box::new(SqlExpr::Other("1".to_string())),
            }),
        }))),
    }
}

#[test]
fn qualify_becomes_a_filter_on_a_subquery() {
    let mut q = select_with_qualify(BinaryOperator::Eq);
    update_qualify_in_query(&mut q);
    let SetExpr::Select(outer) = *q.body else { panic!("select expected") };
    assert!(matches!(&outer.projection[..], [SelectItem::UnnamedExpr(SqlExpr::Identifier(s))] if s == "*"));
    assert!(outer.qualify.is_none());
    match &outer.selection {
        Some(SqlExpr::BinaryOp { left, op, right }) => {
            assert!(matches!(&**left, SqlExpr::Identifier(a) if a == "qualify_alias"));
            assert_eq!(*op, BinaryOperator::Eq);
            assert!(matches!(&**right, SqlExpr::Other(v) if v == "1"));
        }
        other => panic!("unexpected filter {other:?}"),
    }
    let [FromItem::Derived(sub)] = &outer.from[..] else { panic!("one derived source expected") };
    let SetExpr::Select(inner) = &*sub.body else { panic!("inner select expected") };
    assert!(inner.qualify.is_none());
    assert_eq!(inner.projection.len(), 2);
    assert!(matches!(&inner.projection[1], SelectItem::ExprWithAlias { alias, .. } if alias == "qualify_alias"));
    assert!(matches!(&inner.from[..], [FromItem::Table(t)] if t == "t"));
}

#[test]
fn other_qualify_operators_and_nested_queries() {
    let mut q = select_with_qualify(BinaryOperator::Other);
    update_qualify_in_query(&mut q);
    let SetExpr::Select(s) = *q.body else { panic!() };
    assert!(s.qualify.is_some());

    let mut q = Query { with: vec![select_with_qualify(BinaryOperator::Lt)], body: Box::new(SetExpr::Query(Box::new(select_with_qualify(BinaryOperator::LtEq)))) };
    update_qualify_in_query(&mut q);
    for part in [&q.with[0], match &*q.body { SetExpr::Query(inner) => &**inner, _ => panic!() }] {
        let SetExpr::Select(s) = &*part.body else { panic!() };
        assert!(s.qualify.is_none());
        assert!(matches!(&s.from[..], [FromItem::Derived(_)]));
    }
}

#[test]
fn empty_plans() {
    let empty = LogicalPlan::EmptyRelation { produce_one_row: false };
    assert!(is_logical_plan_effectively_empty(&LogicalPlan::Projection(Box::new(empty))));
    let one = LogicalPlan::EmptyRelation { produce_one_row: true };
    assert!(!is_logical_plan_effectively_empty(&LogicalPlan::SubqueryAlias(Box::new(one))));
    let f = LogicalPlan::Filter { predicate_is_false: true, input: Box::new(LogicalPlan::Other) };
    assert!(is_logical_plan_effectively_empty(&f));
    assert!(!is_logical_plan_effectively_empty(&LogicalPlan::Other));
}

#[test]
fn pivot_values_query_text() {
    let col = vec![Ident::new("amount".to_string())];
    assert_eq!(pivot_values_query(&col, "sales", &vec![]), "SELECT DISTINCT amount FROM sales ");
    let order = vec![
        OrderByItem { expr: "amount".to_string(), asc: Some(false), nulls_first: Some(true) },
        OrderByItem { expr: "id".to_string(), asc: None, nulls_first: None },
    ];
    assert_eq!(
        pivot_values_query(&col, "sales", &order),
        "SELECT DISTINCT amount FROM sales ORDER BY amount DESC NULLS FIRST, id"
    );
}

#[test]
fn null_typed_columns_are_not_sort_keys() {
    let schema = vec![
        Field::new("a".to_string(), DataType::Null, true),
        Field::new("b".to_string(), DataType::Int32, true),
        Field::new("c".to_string(), DataType::Utf8, true),
    ];
    assert_eq!(sortable_columns(&schema), vec![1, 2]);
}
