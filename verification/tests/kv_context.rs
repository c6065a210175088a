use embucket::kv::{entity_key, items_from_range, range_done};
use embucket::query_context::QueryContext;

#[test]
fn range_reads_stop_at_the_limit() {
    let items: Vec<u32> = (0..100).collect();
    assert_eq!(items_from_range(items.clone(), Some(10)), (0..10).collect::<Vec<u32>>());
    assert_eq!(items_from_range(items.clone(), None), items);
    // a limit of zero still returns the first item
    assert_eq!(items_from_range(items, Some(0)), vec![0]);
    assert!(items_from_range(Vec::<u32>::new(), Some(5)).is_empty());
    assert!(range_done(65535, None));
    assert!(!range_done(3, Some(4)));
}

#[test]
fn entities_are_keyed_by_prefix_and_id() {
    assert_eq!(entity_key("worksheets", "42"), "worksheets/42");
}

#[test]
fn query_context_builders() {
    let c = QueryContext::new(Some("db".to_string()), None, Some(7))
        .with_query_id(5)
        .with_request_id("8f2c3c2e-0000-4000-8000-000000000000".to_string())
        .with_ip_address("127.0.0.1".to_string())
        .with_async_query(true);
    assert_eq!(c.database.as_deref(), Some("db"));
    assert_eq!(c.schema, None);
    assert_eq!(c.worksheet_id, Some(7));
    assert_eq!(c.query_id, 5);
    assert_eq!(c.ip_address.as_deref(), Some("127.0.0.1"));
    assert!(c.async_query);
    assert_eq!(QueryContext::default(), QueryContext::new(None, None, None));
}
