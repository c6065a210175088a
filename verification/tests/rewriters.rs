use embucket::accelerators::{plan_has_local_files, put_table_frames, put_table_path, AcceleratorKind, FlightFrame, FlightSubstraitClient, PlanRel, Rel};
use embucket::json_get_float::{Expr, JsonGetFloatRewriter};
use embucket::json_get_float_as_number::JsonGetFloatRewriter as AsNumberRewriter;
use embucket::types::DataType;

fn json_get(args: Vec<Expr>) -> Expr {
    Expr::ScalarFunction("json_get".to_string(), args)
}

fn col(n: &str) -> Expr {
    Expr::Column(n.to_string())
}

fn is_call(e: &Expr, name: &str, n_args: usize) -> bool {
    matches!(e, Expr::ScalarFunction(f, a) if f == name && a.len() == n_args)
}

#[test]
fn json_get_cast_to_decimal_reads_a_float_under_the_cast() {
    let r = JsonGetFloatRewriter::new("json_get_float".to_string());
    let e = Expr::Cast(Box::new(Expr::Alias(Box::new(json_get(vec![col("obj"), col("k")])), "a".to_string())), DataType::Decimal128(38, 0));
    let (out, changed) = r.rewrite(e);
    assert!(changed);
    match out {
        Expr::Cast(inner, t) => {
            assert_eq!(t, DataType::Decimal128(38, 0));
            assert!(is_call(&inner, "json_get_float", 2));
        }
        other => panic!("unexpected {other:?}"),
    }
}

#[test]
fn other_casts_are_left_alone() {
    let r = JsonGetFloatRewriter::new("json_get_float".to_string());
    let (out, changed) = r.rewrite(Expr::Cast(Box::new(json_get(vec![col("o")])), DataType::Utf8));
    assert!(!changed);
    assert!(matches!(out, Expr::Cast(_, DataType::Utf8)));
    let (out, changed) = r.rewrite(Expr::Cast(Box::new(Expr::ScalarFunction("upper".to_string(), vec![])), DataType::Float64));
    assert!(!changed);
    assert!(matches!(out, Expr::Cast(_, DataType::Float64)));
    let (_, changed) = r.rewrite(col("x"));
    assert!(!changed);
}

#[test]
fn as_number_rewrite_drops_the_cast() {
    let r = AsNumberRewriter::new();
    assert_eq!(r.name(), "JsonGetFloatRewriter");
    let (out, changed) = r.rewrite(Expr::Cast(Box::new(json_get(vec![col("o"), col("k")])), DataType::Float32));
    assert!(changed);
    assert!(is_call(&out, "json_get_float", 2));
}

#[test]
fn accelerator_names() {
    assert_eq!(AcceleratorKind::from_str("acero"), Some(AcceleratorKind::Acero));
    assert_eq!(AcceleratorKind::from_str("  VeLoX\n"), Some(AcceleratorKind::Velox));
    assert_eq!(AcceleratorKind::from_str("duckdb"), None);
    assert_eq!(AcceleratorKind::from_str(""), None);
    let c = FlightSubstraitClient::new("http://localhost:50051".to_string(), AcceleratorKind::Acero);
    assert_eq!(c.kind(), AcceleratorKind::Acero);
}

#[test]
fn local_files_are_found_through_inputs() {
    let read = |local| Rel::Read { local_files: local };
    let plan = vec![PlanRel::Root(Some(Rel::Project(Some(Box::new(Rel::Join(
        Some(Box::new(read(false))),
        Some(Box::new(Rel::Filter(Some(Box::new(read(true)))))),
    ))))))];
    assert!(plan_has_local_files(&plan));
    let plan = vec![PlanRel::Rel(Rel::SetOp(vec![read(false), Rel::Sort(Some(Box::new(read(true))))]))];
    assert!(plan_has_local_files(&plan));
    let plan = vec![PlanRel::Rel(Rel::SetOp(vec![read(false)])), PlanRel::Root(None), PlanRel::Other];
    assert!(!plan_has_local_files(&plan));
    assert!(!plan_has_local_files(&vec![PlanRel::Rel(Rel::Other)]));
}

#[test]
fn table_push_frames() {
    assert_eq!(put_table_path("t1"), vec!["push".to_string(), "temp".to_string(), "t1".to_string()]);
    assert_eq!(put_table_frames(&vec![]), vec![FlightFrame::Schema]);
    assert_eq!(
        put_table_frames(&vec![0, 2]),
        vec![FlightFrame::Schema, FlightFrame::Batch, FlightFrame::Dictionary, FlightFrame::Dictionary, FlightFrame::Batch]
    );
}
