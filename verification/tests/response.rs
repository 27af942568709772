use arangors::response::{
    create_collection_outcome, drop_collection_outcome, ArangoError, DbError, Response, Success,
};

fn ok(result: bool) -> Response<bool> {
    Response::Success(Success {
        error: false,
        code: 200,
        result,
    })
}

fn failed() -> Response<bool> {
    Response::Error(ArangoError {
        code: 409,
        error_num: 1207,
        message: "duplicate name".to_string(),
    })
}

#[test]
fn created_on_true_result() {
    assert!(create_collection_outcome(ok(true)).is_ok());
}

#[test]
fn creation_rejected_on_false_result() {
    match create_collection_outcome(ok(false)) {
        Err(DbError::CreateRejected(s)) => {
            assert_eq!(s.result, false);
            assert_eq!(s.code, 200);
        }
        other => panic!("unexpected {:?}", other),
    }
}

#[test]
fn creation_error_carries_server_message() {
    match create_collection_outcome(failed()) {
        Err(DbError::Server(e)) => {
            assert_eq!(e.message, "duplicate name");
            assert_eq!(e.error_num, 1207);
        }
        other => panic!("unexpected {:?}", other),
    }
}

#[test]
fn dropped_on_true_result() {
    assert!(drop_collection_outcome(ok(true)).is_ok());
}

#[test]
fn drop_rejected_on_false_result() {
    assert!(matches!(
        drop_collection_outcome(ok(false)),
        Err(DbError::DropRejected(_))
    ));
}

#[test]
fn drop_error_carries_server_message() {
    match drop_collection_outcome(failed()) {
        Err(DbError::Server(e)) => assert_eq!(e.message, "duplicate name"),
        other => panic!("unexpected {:?}", other),
    }
}

#[test]
fn into_result_of_success_and_error() {
    let r: Response<Vec<u32>> = Response::Success(Success {
        error: false,
        code: 200,
        result: vec![1, 2],
    });
    assert_eq!(r.into_result().unwrap(), vec![1, 2]);
    let e: Response<Vec<u32>> = Response::Error(ArangoError {
        code: 404,
        error_num: 1228,
        message: "database not found".to_string(),
    });
    assert_eq!(e.into_result().unwrap_err().code, 404);
}
