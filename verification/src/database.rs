//! The database level of the server: AQL queries and collections live in a
//! database.
use vstd::prelude::*;
use vstd::string::StringExecFns;

use crate::aql::{bound_values, AqlQuery};
use crate::response::DbError;
use crate::urls::{
    collection_path, cursor_path, database_path, directory_url, join_url,
    lemma_collection_path_names_collection, lemma_cursor_path_names_cursor,
    lemma_endpoints_are_plain, make_collection_path, make_cursor_path, make_database_path,
    path_chars, plain_relative_path, resolves_by_appending, url_join,
};

verus! {

/// Marker for a connection that may only read.
#[derive(Debug)]
pub struct ReadOnly;

/// Marker for a connection that may read and write.
#[derive(Debug)]
pub struct ReadWrite;

/// The HTTP methods that the database level uses.
#[derive(Debug, Clone, Copy, PartialEq, Eq)]
pub enum Method {
    Get,
    Post,
    Put,
    Delete,
}

/// What a request carries: nothing, the name of a collection to create
/// (sent as the JSON object `{"name": ...}`), or an AQL query to run.
#[derive(Debug)]
pub enum RequestBody {
    Empty,
    CollectionName(String),
    Query(AqlQuery),
}

/// A request to send to the server: its method, its address and its body.
#[derive(Debug)]
pub struct HttpRequest {
    pub method: Method,
    pub url: String,
    pub body: RequestBody,
}

/// `req` is the request with `method` to `url` carrying `body`, and there is
/// none where there is no address.
pub open spec fn addressed(
    req: Option<HttpRequest>,
    method: Method,
    url: Option<Seq<char>>,
    body: RequestBody,
) -> bool {
    match url {
        Some(u) => req matches Some(r) && r.method == method && r.url@ == u && r.body == body,
        None => req is None,
    }
}

/// `req` is a request to `url`.
pub open spec fn sent_to(req: Option<HttpRequest>, url: Seq<char>) -> bool {
    req matches Some(r) && r.url@ == url
}

/// A collection as the server lists it.
#[derive(Debug, Clone)]
pub struct CollectionResponse {
    pub id: String,
    pub name: String,
    pub is_system: bool,
}

/// Index `i` is the first entry of `collections` that bears `name`.
pub open spec fn first_named(collections: Seq<CollectionResponse>, name: Seq<char>, i: int) -> bool {
    &&& 0 <= i < collections.len()
    &&& collections[i].name@ == name
    &&& forall|j: int| 0 <= j < i ==> (#[trigger] collections[j]).name@ != name
}

/// A handle on one database of a server: its name and the base address
/// under which its endpoints lie.
#[derive(Debug)]
pub struct Database {
    name: String,
    base_url: String,
}

/// What a [`Database`] is: its name and its base address.
pub struct DatabaseView {
    pub name: Seq<char>,
    pub url: Seq<char>,
}

impl View for Database {
    type V = DatabaseView;

    closed spec fn view(&self) -> DatabaseView {
        DatabaseView { name: self.name@, url: self.base_url@ }
    }
}

impl Database {
    /// An `http` or `https` base address that ends in `/` without query or
    /// fragment has the relative endpoints appended to it.
    #[verifier::type_invariant]
    spec fn base_resolves_by_appending(self) -> bool {
        directory_url(self.base_url@) ==> resolves_by_appending(self.base_url@)
    }

    /// The handle on database `name` of the server at `server_url`: its base
    /// address is `/_db/{name}/` resolved against `server_url`.
    pub fn new(server_url: &str, name: &str) -> (db: Database)
        requires
            url_join(server_url@, database_path(name@)) is Some,
        ensures
            db@.name == name@,
            db@.url == url_join(server_url@, database_path(name@))->0,
    {
        let path = make_database_path(name);
        let base_url = join_url(server_url, path.as_str()).unwrap();
        Database { name: String::from_str(name), base_url }
    }

    /// The handle on database `name` of the server at `server_url`, or `None`
    /// where `/_db/{name}/` does not resolve against `server_url`.
    pub fn try_new(server_url: &str, name: &str) -> (db: Option<Database>)
        ensures
            db is Some <==> url_join(server_url@, database_path(name@)) is Some,
            db matches Some(d) ==> d@.name == name@ && d@.url == url_join(
                server_url@,
                database_path(name@),
            )->0,
    {
        let path = make_database_path(name);
        match join_url(server_url, path.as_str()) {
            Some(base_url) => Some(Database { name: String::from_str(name), base_url }),
            None => None,
        }
    }

    /// The base address of this database.
    pub fn get_url(&self) -> (url: &str)
        ensures
            url@ == self@.url,
    {
        self.base_url.as_str()
    }

    /// The name of this database.
    pub fn name(&self) -> (name: &str)
        ensures
            name@ == self@.name,
    {
        self.name.as_str()
    }

    /// A request with `method` to `path` resolved against the base address of
    /// this database; `None` where the path does not resolve.
    fn request(&self, method: Method, path: &str, body: RequestBody) -> (req: Option<HttpRequest>)
        ensures
            addressed(req, method, url_join(self@.url, path@), body),
            directory_url(self@.url) && plain_relative_path(path@) ==> sent_to(req, self@.url + path@),
    {
        proof {
            use_type_invariant(self);
        }
        match join_url(self.base_url.as_str(), path) {
            Some(url) => Some(HttpRequest { method, url, body }),
            None => None,
        }
    }

    /// The request that lists the collections of this database:
    /// `GET _api/collection`.
    pub fn accessible_collections_request(&self) -> (req: Option<HttpRequest>)
        ensures
            addressed(req, Method::Get, url_join(self@.url, "_api/collection"@), RequestBody::Empty),
            directory_url(self@.url) ==> sent_to(req, self@.url + "_api/collection"@),
    {
        proof {
            lemma_endpoints_are_plain();
        }
        self.request(Method::Get, "_api/collection", RequestBody::Empty)
    }

    /// The request that creates a collection: `POST _api/collection`, whose
    /// body names the collection.
    pub fn create_collection_request(&self, name: &str) -> (req: Option<HttpRequest>)
        ensures
            req matches Some(r) ==> r.body matches RequestBody::CollectionName(n) && n@ == name@,
            match url_join(self@.url, "_api/collection"@) {
                Some(u) => req matches Some(r) && r.method == Method::Post && r.url@ == u,
                None => req is None,
            },
            directory_url(self@.url) ==> sent_to(req, self@.url + "_api/collection"@),
    {
        proof {
            lemma_endpoints_are_plain();
        }
        self.request(Method::Post, "_api/collection", RequestBody::CollectionName(name.to_owned()))
    }

    /// The request that drops collection `name`:
    /// `DELETE _api/collection/{name}`.
    pub fn drop_collection_request(&self, name: &str) -> (req: Option<HttpRequest>)
        ensures
            addressed(req, Method::Delete, url_join(self@.url, collection_path(name@)), RequestBody::Empty),
            directory_url(self@.url) && path_chars(name@) ==> sent_to(req, self@.url + collection_path(name@)),
    {
        let path = make_collection_path(name);
        proof {
            lemma_collection_path_names_collection(name@, name@);
        }
        self.request(Method::Delete, path.as_str(), RequestBody::Empty)
    }

    /// The request for the version of the server: `GET _api/version`.
    pub fn arango_version_request(&self) -> (req: Option<HttpRequest>)
        ensures
            addressed(req, Method::Get, url_join(self@.url, "_api/version"@), RequestBody::Empty),
            directory_url(self@.url) ==> sent_to(req, self@.url + "_api/version"@),
    {
        proof {
            lemma_endpoints_are_plain();
        }
        self.request(Method::Get, "_api/version", RequestBody::Empty)
    }

    /// The request for information on this database:
    /// `GET _api/database/current`.
    pub fn info_request(&self) -> (req: Option<HttpRequest>)
        ensures
            addressed(req, Method::Get, url_join(self@.url, "_api/database/current"@), RequestBody::Empty),
            directory_url(self@.url) ==> sent_to(req, self@.url + "_api/database/current"@),
    {
        proof {
            lemma_endpoints_are_plain();
        }
        self.request(Method::Get, "_api/database/current", RequestBody::Empty)
    }

    /// The request that runs AQL query `aql`, which it carries as its body:
    /// `POST _api/cursor`.
    pub fn aql_query_batch_request(&self, aql: AqlQuery) -> (req: Option<HttpRequest>)
        ensures
            addressed(req, Method::Post, url_join(self@.url, "_api/cursor"@), RequestBody::Query(aql)),
            directory_url(self@.url) ==> sent_to(req, self@.url + "_api/cursor"@),
    {
        proof {
            lemma_endpoints_are_plain();
        }
        self.request(Method::Post, "_api/cursor", RequestBody::Query(aql))
    }

    /// The request for the next batch of cursor `cursor_id`:
    /// `PUT _api/cursor/{cursor_id}`.
    pub fn aql_next_batch_request(&self, cursor_id: &str) -> (req: Option<HttpRequest>)
        ensures
            addressed(req, Method::Put, url_join(self@.url, cursor_path(cursor_id@)), RequestBody::Empty),
            directory_url(self@.url) && path_chars(cursor_id@) ==> sent_to(req, self@.url + cursor_path(cursor_id@)),
    {
        let path = make_cursor_path(cursor_id);
        proof {
            lemma_cursor_path_names_cursor(cursor_id@, cursor_id@);
        }
        self.request(Method::Put, path.as_str(), RequestBody::Empty)
    }

    /// The first of `collections` that bears `name`, or
    /// `CollectionNotFound(name)` where none does.
    pub fn collection<'c>(&self, collections: &'c Vec<CollectionResponse>, name: &str) -> (found:
        Result<&'c CollectionResponse, DbError>)
        ensures
            match found {
                Ok(c) => exists|i: int| first_named(collections@, name@, i) && *c == collections@[i],
                Err(e) => (e matches DbError::CollectionNotFound(n) && n@ == name@) && forall|i: int|
                    0 <= i < collections@.len() ==> (#[trigger] collections@[i]).name@ != name@,
            },
    {
        let wanted = name.to_owned();
        let mut i: usize = 0;
        while i < collections.len()
            invariant
                i <= collections@.len(),
                wanted@ == name@,
                forall|j: int| 0 <= j < i ==> (#[trigger] collections@[j]).name@ != name@,
            decreases collections.len() - i,
        {
            if collections[i].name == wanted {
                return Ok(&collections[i]);
            }
            i = i + 1;
        }
        Err(DbError::CollectionNotFound(wanted))
    }

    /// The query with text `query` and each of `bind_vars` bound in turn, a
    /// later binding of a name replacing an earlier one.
    pub fn aql_bind_vars(&self, query: &str, bind_vars: Vec<(String, serde_json::Value)>) -> (aql:
        AqlQuery)
        ensures
            aql@.query == query@,
            aql@.bind_vars == bound_values(bind_vars@),
    {
        let mut aql = AqlQuery::new(query);
        for pair in it: bind_vars.into_iter()
            invariant
                aql@.query == query@,
                it.seq() == bind_vars@,
                aql@.bind_vars == bound_values(bind_vars@.take(it.index() as int)),
        {
            let (key, value) = pair;
            proof {
                assert(bind_vars@.take(it.index() + 1).drop_last() =~= bind_vars@.take(it.index() as int));
            }
            aql = aql.bind_var(key.as_str(), value);
        }
        proof {
            assert(bind_vars@.take(bind_vars@.len() as int) =~= bind_vars@);
        }
        aql
    }
}

} // verus!
