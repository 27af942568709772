//! The replies of the server, and the errors that the library reports.
use vstd::prelude::*;

verus! {

/// A reply that the server marks as successful.
#[derive(Debug)]
pub struct Success<T> {
    pub error: bool,
    pub code: u16,
    pub result: T,
}

/// A reply that the server marks as failed.
#[derive(Debug)]
pub struct ArangoError {
    pub code: u16,
    pub error_num: u16,
    pub message: String,
}

/// The server's reply to a request: a success carrying a result, or an error.
#[derive(Debug)]
pub enum Response<T> {
    Success(Success<T>),
    Error(ArangoError),
}

/// What the library reports when an operation on a database fails.
#[derive(Debug)]
pub enum DbError {
    /// No collection of the database bears the name that was asked for.
    CollectionNotFound(String),
    /// The server answered the creation of a collection with a `false` result.
    CreateRejected(Success<bool>),
    /// The server answered the drop of a collection with a `false` result.
    DropRejected(Success<bool>),
    /// The server answered with an error.
    Server(ArangoError),
}

impl<T> Response<T> {
    /// The result that a successful reply carries, or the server's error.
    pub fn into_result(self) -> (res: Result<T, ArangoError>)
        ensures
            match self {
                Response::Success(s) => res == Ok::<T, ArangoError>(s.result),
                Response::Error(e) => res == Err::<T, ArangoError>(e),
            },
    {
        match self {
            Response::Success(s) => Ok(s.result),
            Response::Error(e) => Err(e),
        }
    }
}

/// What the reply to a request for the creation of a collection means: the
/// collection was created (`Ok`), the server refused it, or the server failed.
pub fn create_collection_outcome(response: Response<bool>) -> (res: Result<(), DbError>)
    ensures
        match response {
            Response::Success(s) => if s.result {
                res == Ok::<(), DbError>(())
            } else {
                res == Err::<(), DbError>(DbError::CreateRejected(s))
            },
            Response::Error(e) => res == Err::<(), DbError>(DbError::Server(e)),
        },
{
    match response {
        Response::Success(s) => {
            if s.result {
                Ok(())
            } else {
                Err(DbError::CreateRejected(s))
            }
        },
        Response::Error(e) => Err(DbError::Server(e)),
    }
}

/// What the reply to a request for the drop of a collection means: the
/// collection was dropped (`Ok`), the server refused it, or the server failed.
pub fn drop_collection_outcome(response: Response<bool>) -> (res: Result<(), DbError>)
    ensures
        match response {
            Response::Success(s) => if s.result {
                res == Ok::<(), DbError>(())
            } else {
                res == Err::<(), DbError>(DbError::DropRejected(s))
            },
            Response::Error(e) => res == Err::<(), DbError>(DbError::Server(e)),
        },
{
    match response {
        Response::Success(s) => {
            if s.result {
                Ok(())
            } else {
                Err(DbError::DropRejected(s))
            }
        },
        Response::Error(e) => Err(DbError::Server(e)),
    }
}

} // verus!
