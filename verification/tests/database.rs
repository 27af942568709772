use arangors::aql::AqlQuery;
use arangors::database::{
    CollectionResponse, Database, HttpRequest, Method, ReadOnly, ReadWrite, RequestBody,
};
use arangors::urls::{make_collection_path, make_cursor_path, make_database_path};
use arangors::response::DbError;

const SERVER: &str = "http://localhost:8529/";

fn collection(id: &str, name: &str) -> CollectionResponse {
    CollectionResponse {
        id: id.to_string(),
        name: name.to_string(),
        is_system: false,
    }
}

#[test]
fn database_url_is_under_its_name() {
    let db = Database::new(SERVER, "test_db");
    assert_eq!(db.get_url(), "http://localhost:8529/_db/test_db/");
    assert_eq!(db.name(), "test_db");
}

#[test]
fn database_url_of_server_without_trailing_slash() {
    let db = Database::new("http://localhost:8529", "example");
    assert_eq!(db.get_url(), "http://localhost:8529/_db/example/");
}

#[test]
fn database_url_replaces_server_path() {
    let db = Database::new("http://localhost:8529/some/path", "test_db");
    assert_eq!(db.get_url(), "http://localhost:8529/_db/test_db/");
}

#[test]
fn database_on_unparsable_server_is_none() {
    assert!(Database::try_new("not a url", "test_db").is_none());
}

#[test]
fn try_new_agrees_with_new() {
    let db = Database::try_new(SERVER, "test_db").unwrap();
    assert_eq!(db.get_url(), Database::new(SERVER, "test_db").get_url());
    assert_eq!(db.name(), "test_db");
}

fn request(req: Option<HttpRequest>) -> (Method, String) {
    let r = req.unwrap();
    assert!(matches!(r.body, RequestBody::Empty));
    (r.method, r.url)
}

#[test]
fn endpoint_requests() {
    let db = Database::new(SERVER, "test_db");
    assert_eq!(
        request(db.accessible_collections_request()),
        (Method::Get, "http://localhost:8529/_db/test_db/_api/collection".to_string())
    );
    assert_eq!(
        request(db.drop_collection_request("test_collection")),
        (
            Method::Delete,
            "http://localhost:8529/_db/test_db/_api/collection/test_collection".to_string()
        )
    );
    assert_eq!(
        request(db.arango_version_request()),
        (Method::Get, "http://localhost:8529/_db/test_db/_api/version".to_string())
    );
    assert_eq!(
        request(db.info_request()),
        (Method::Get, "http://localhost:8529/_db/test_db/_api/database/current".to_string())
    );
    assert_eq!(
        request(db.aql_next_batch_request("12345")),
        (Method::Put, "http://localhost:8529/_db/test_db/_api/cursor/12345".to_string())
    );
}

#[test]
fn create_collection_request_names_the_collection() {
    let db = Database::new(SERVER, "test_db");
    let r = db.create_collection_request("users").unwrap();
    assert_eq!(r.method, Method::Post);
    assert_eq!(r.url, "http://localhost:8529/_db/test_db/_api/collection");
    match r.body {
        RequestBody::CollectionName(name) => assert_eq!(name, "users"),
        other => panic!("unexpected {:?}", other),
    }
}

#[test]
fn aql_query_batch_request_carries_the_query() {
    let db = Database::new(SERVER, "test_db");
    let r = db
        .aql_query_batch_request(AqlQuery::new("FOR u IN users RETURN u"))
        .unwrap();
    assert_eq!(r.method, Method::Post);
    assert_eq!(r.url, "http://localhost:8529/_db/test_db/_api/cursor");
    match r.body {
        RequestBody::Query(q) => assert_eq!(q.query(), "FOR u IN users RETURN u"),
        other => panic!("unexpected {:?}", other),
    }
}

#[test]
fn paths_are_built_from_names() {
    assert_eq!(make_database_path("test_db"), "/_db/test_db/");
    assert_eq!(make_collection_path("users"), "_api/collection/users");
    assert_eq!(make_cursor_path("42"), "_api/cursor/42");
}

#[test]
fn collection_found_by_name() {
    let db = Database::new(SERVER, "test_db");
    let list = vec![
        collection("1", "_users"),
        collection("2", "test_collection"),
        collection("3", "other"),
    ];
    let found = db.collection(&list, "test_collection").unwrap();
    assert_eq!(found.id, "2");
    assert_eq!(found.name, "test_collection");
}

#[test]
fn collection_first_of_equal_names() {
    let db = Database::new(SERVER, "test_db");
    let list = vec![collection("7", "dup"), collection("8", "dup")];
    assert_eq!(db.collection(&list, "dup").unwrap().id, "7");
}

#[test]
fn collection_not_found() {
    let db = Database::new(SERVER, "test_db");
    let list = vec![collection("2", "test_collection")];
    match db.collection(&list, "test_collection_non_exists") {
        Err(DbError::CollectionNotFound(name)) => assert_eq!(name, "test_collection_non_exists"),
        other => panic!("unexpected {:?}", other),
    }
    let empty: Vec<CollectionResponse> = Vec::new();
    assert!(db.collection(&empty, "test_collection").is_err());
}

#[test]
fn markers_print() {
    assert_eq!(format!("{:?}", ReadOnly), "ReadOnly");
    assert_eq!(format!("{:?}", ReadWrite), "ReadWrite");
}
