use arangors::aql::AqlQuery;
use arangors::cursor::{Cursor, FetchStep, ResultGatherer};
use arangors::database::Database;
use serde_json::Value;

const QUERY: &str = r#"FOR i in test_collection FILTER i.username==@username return i"#;

#[test]
fn new_query_has_no_bindings() {
    let q = AqlQuery::new(QUERY);
    assert_eq!(q.query(), QUERY);
    assert!(q.bind_vars().is_empty());
}

#[test]
fn bind_var_binds_value() {
    let q = AqlQuery::new(QUERY).bind_var("username", Value::from("test2"));
    assert_eq!(q.bind_vars().len(), 1);
    assert_eq!(q.bind_vars()[0].0, "username");
    assert_eq!(q.bind_vars()[0].1, Value::from("test2"));
}

#[test]
fn rebinding_replaces_value() {
    let q = AqlQuery::new(QUERY)
        .bind_var("username", Value::from("test1"))
        .bind_var("limit", Value::from(3))
        .bind_var("username", Value::from("test2"));
    let (text, vars) = q.into_parts();
    assert_eq!(text, QUERY);
    assert_eq!(vars.len(), 2);
    assert_eq!(vars[0], ("username".to_string(), Value::from("test2")));
    assert_eq!(vars[1], ("limit".to_string(), Value::from(3)));
}

#[test]
fn aql_bind_vars_binds_each() {
    let db = Database::new("http://localhost:8529/", "test_db");
    let vars = vec![
        ("username".to_string(), Value::from("test2")),
        ("age".to_string(), Value::from(30)),
    ];
    let q = db.aql_bind_vars(QUERY, vars);
    assert_eq!(q.query(), QUERY);
    let bound = q.bind_vars();
    assert_eq!(bound.len(), 2);
    assert!(bound.contains(&("username".to_string(), Value::from("test2"))));
    assert!(bound.contains(&("age".to_string(), Value::from(30))));
}

#[test]
fn aql_bind_vars_later_binding_wins() {
    let db = Database::new("http://localhost:8529/", "test_db");
    let vars = vec![
        ("username".to_string(), Value::from("first")),
        ("username".to_string(), Value::from("second")),
    ];
    let q = db.aql_bind_vars(QUERY, vars);
    assert_eq!(q.bind_vars().len(), 1);
    assert_eq!(q.bind_vars()[0].1, Value::from("second"));
}

fn batch(result: Vec<u32>, id: Option<&str>, more: bool) -> Cursor<u32> {
    Cursor {
        result,
        more,
        id: id.map(|s| s.to_string()),
    }
}

#[test]
fn single_batch_gives_its_results() {
    let mut g = ResultGatherer::new();
    assert!(!g.is_finished());
    match g.step(batch(vec![1], None, false)) {
        FetchStep::Done => {}
        other => panic!("unexpected {:?}", other),
    }
    assert!(g.is_finished());
    assert_eq!(g.into_results(), vec![1]);
}

#[test]
fn every_batch_is_gathered_in_order() {
    let mut g = ResultGatherer::new();
    match g.step(batch(vec![1, 2], Some("77"), true)) {
        FetchStep::NextBatch(id) => assert_eq!(id, "77"),
        other => panic!("unexpected {:?}", other),
    }
    match g.step(batch(vec![3], Some("77"), true)) {
        FetchStep::NextBatch(id) => assert_eq!(id, "77"),
        other => panic!("unexpected {:?}", other),
    }
    assert!(!g.is_finished());
    match g.step(batch(vec![4, 5], Some("77"), false)) {
        FetchStep::Done => {}
        other => panic!("unexpected {:?}", other),
    }
    assert_eq!(g.into_results(), vec![1, 2, 3, 4, 5]);
}

#[test]
fn empty_batches_add_nothing() {
    let mut g: ResultGatherer<u32> = ResultGatherer::new();
    assert!(matches!(
        g.step(batch(vec![], Some("9"), true)),
        FetchStep::NextBatch(_)
    ));
    assert!(matches!(g.step(batch(vec![], None, false)), FetchStep::Done));
    assert!(g.into_results().is_empty());
}
