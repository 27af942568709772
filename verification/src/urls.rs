//! Resolution of endpoint addresses against a base address.
use vstd::prelude::*;

verus! {

/// The text of the URL that `Url::join(input)` of the `url` crate (re-exported
/// by `reqwest` as `reqwest::Url`) gives, taken on the URL that `Url::parse`
/// reads from `base`; `None` where either of the two calls fails.
pub uninterp spec fn url_join(base: Seq<char>, input: Seq<char>) -> Option<Seq<char>>;

/// `s` begins with `prefix`.
pub open spec fn has_prefix(s: Seq<char>, prefix: Seq<char>) -> bool {
    prefix.len() <= s.len() && s.subrange(0, prefix.len() as int) == prefix
}

/// A character that a URL path carries as it is: an ASCII letter or digit,
/// `_`, `-` or `/`.
pub open spec fn path_char(c: char) -> bool {
    ||| ('a' <= c && c <= 'z')
    ||| ('A' <= c && c <= 'Z')
    ||| ('0' <= c && c <= '9')
    ||| c == '_'
    ||| c == '-'
    ||| c == '/'
}

/// Every character of `p` is a [`path_char`].
pub open spec fn path_chars(p: Seq<char>) -> bool {
    forall|i: int| 0 <= i < p.len() ==> path_char(#[trigger] p[i])
}

/// A relative path of plain characters: no scheme, no `.` segment, no query
/// or fragment, nothing to escape, and not starting at the root.
pub open spec fn plain_relative_path(p: Seq<char>) -> bool {
    path_chars(p) && (p.len() > 0 ==> p[0] != '/')
}

/// An `http` or `https` address that ends in `/` and has neither query nor
/// fragment.
pub open spec fn directory_url(b: Seq<char>) -> bool {
    &&& (has_prefix(b, seq!['h', 't', 't', 'p', ':', '/', '/']) || has_prefix(
        b,
        seq!['h', 't', 't', 'p', 's', ':', '/', '/'],
    ))
    &&& b.len() > 0
    &&& b.last() == '/'
    &&& forall|i: int| 0 <= i < b.len() ==> #[trigger] b[i] != '?' && b[i] != '#'
}

/// Every plain relative path resolves against `b` to `b` followed by it:
/// same scheme, host, port and directory, the path appended.
pub open spec fn resolves_by_appending(b: Seq<char>) -> bool {
    forall|p: Seq<char>| plain_relative_path(p) ==> #[trigger] url_join(b, p) == Some(b + p)
}

/// Calls `reqwest::Url::parse` on `base` and `Url::join` with `input` on the
/// result, and hands back the joined URL's serialization.
/// Claimed, not proved:
/// - the result is `url_join` of the two texts, so that equal texts give
///   equal results;
/// - a result that is an `http` or `https` directory address (ends in `/`, no
///   query, no fragment) is one against which a plain relative path resolves
///   by appending. The result is the serialization of a parsed URL, which the
///   url crate reparses to the same URL (its `check_invariants` tests this
///   round trip), and the crate's documentation of `join` shows that "a base
///   with a trailing slash" keeps its directory and gains the relative path.
#[verifier::external_body]
pub(crate) fn join_url(base: &str, input: &str) -> (joined: Option<String>)
    ensures
        joined.deep_view() == url_join(base@, input@),
        joined matches Some(j) ==> (directory_url(j@) ==> resolves_by_appending(j@)),
{
    match reqwest::Url::parse(base) {
        Ok(url) => match url.join(input) {
            Ok(resolved) => Some(String::from(resolved)),
            Err(_) => None,
        },
        Err(_) => None,
    }
}

/// The path, relative to the server's root, under which a database lives.
pub open spec fn database_path(name: Seq<char>) -> Seq<char> {
    "/_db/"@ + name + "/"@
}

/// Builds `/_db/{name}/`.
pub fn make_database_path(name: &str) -> (path: String)
    ensures
        path@ == database_path(name@),
{
    let mut path = String::from_str("/_db/");
    path.append(name);
    path.append("/");
    path
}

/// The endpoint that addresses one collection by its name.
pub open spec fn collection_path(name: Seq<char>) -> Seq<char> {
    "_api/collection/"@ + name
}

/// Builds `_api/collection/{name}`.
pub fn make_collection_path(name: &str) -> (path: String)
    ensures
        path@ == collection_path(name@),
{
    let mut path = String::from_str("_api/collection/");
    path.append(name);
    path
}

/// The endpoint that reads the next batch of a server-side cursor.
pub open spec fn cursor_path(cursor_id: Seq<char>) -> Seq<char> {
    "_api/cursor/"@ + cursor_id
}

/// Builds `_api/cursor/{cursor_id}`.
pub fn make_cursor_path(cursor_id: &str) -> (path: String)
    ensures
        path@ == cursor_path(cursor_id@),
{
    let mut path = String::from_str("_api/cursor/");
    path.append(cursor_id);
    path
}

/// Plain characters stay plain when sequences of them are joined.
pub proof fn lemma_path_chars_concat(a: Seq<char>, b: Seq<char>)
    ensures
        path_chars(a + b) == (path_chars(a) && path_chars(b)),
{
    if path_chars(a) && path_chars(b) {
        assert forall|i: int| 0 <= i < (a + b).len() implies path_char(#[trigger] (a + b)[i]) by {
            if i < a.len() {
                assert((a + b)[i] == a[i]);
            } else {
                assert((a + b)[i] == b[i - a.len()]);
            }
        }
    }
    if path_chars(a + b) {
        assert forall|i: int| 0 <= i < a.len() implies path_char(#[trigger] a[i]) by {
            assert((a + b)[i] == a[i]);
        }
        assert forall|i: int| 0 <= i < b.len() implies path_char(#[trigger] b[i]) by {
            assert((a + b)[a.len() + i] == b[i]);
        }
    }
}

/// The path of database `name` is `/_db/`, then the whole name, then `/`:
/// it ends in `/` (so that endpoints resolve inside it), and it gives the
/// name back, so two databases have the same path only if they have the
/// same name.
pub proof fn lemma_database_path_wraps_name(name: Seq<char>, other: Seq<char>)
    ensures
        database_path(name).len() == name.len() + 6,
        database_path(name).subrange(0, 5) == seq!['/', '_', 'd', 'b', '/'],
        database_path(name).subrange(5, 5 + name.len() as int) == name,
        database_path(name).last() == '/',
        database_path(name) == database_path(other) ==> name == other,
{
    reveal_strlit("/_db/");
    reveal_strlit("/");
    assert(database_path(name).subrange(0, 5) =~= seq!['/', '_', 'd', 'b', '/']);
    assert(database_path(name).subrange(5, 5 + name.len() as int) =~= name);
    if database_path(name) == database_path(other) {
        assert(database_path(other).subrange(5, 5 + other.len() as int) =~= other);
    }
}

/// The endpoint of collection `name` is `_api/collection/` followed by the
/// whole name: the slash separates the two, and removing the prefix gives
/// the name back.
pub proof fn lemma_collection_path_names_collection(name: Seq<char>, other: Seq<char>)
    ensures
        collection_path(name).len() == name.len() + 16,
        collection_path(name).subrange(0, 16) == seq![
            '_', 'a', 'p', 'i', '/', 'c', 'o', 'l', 'l', 'e', 'c', 't', 'i', 'o', 'n', '/'
        ],
        collection_path(name).subrange(16, 16 + name.len() as int) == name,
        collection_path(name) == collection_path(other) ==> name == other,
        path_chars(name) ==> plain_relative_path(collection_path(name)),
{
    reveal_strlit("_api/collection/");
    let prefix = seq!['_', 'a', 'p', 'i', '/', 'c', 'o', 'l', 'l', 'e', 'c', 't', 'i', 'o', 'n', '/'];
    assert(collection_path(name).subrange(0, 16) =~= prefix);
    assert(collection_path(name).subrange(16, 16 + name.len() as int) =~= name);
    if collection_path(name) == collection_path(other) {
        assert(collection_path(other).subrange(0, 16) =~= prefix);
        assert(collection_path(other).subrange(16, 16 + other.len() as int) =~= other);
    }
    lemma_path_chars_concat(prefix, name);
}

/// The next-batch endpoint of cursor `cursor_id` is `_api/cursor/` followed
/// by the whole id, of whatever length.
pub proof fn lemma_cursor_path_names_cursor(cursor_id: Seq<char>, other: Seq<char>)
    ensures
        cursor_path(cursor_id).len() == cursor_id.len() + 12,
        cursor_path(cursor_id).subrange(0, 12) == seq![
            '_', 'a', 'p', 'i', '/', 'c', 'u', 'r', 's', 'o', 'r', '/'
        ],
        cursor_path(cursor_id).subrange(12, 12 + cursor_id.len() as int) == cursor_id,
        cursor_path(cursor_id) == cursor_path(other) ==> cursor_id == other,
        path_chars(cursor_id) ==> plain_relative_path(cursor_path(cursor_id)),
{
    reveal_strlit("_api/cursor/");
    let prefix = seq!['_', 'a', 'p', 'i', '/', 'c', 'u', 'r', 's', 'o', 'r', '/'];
    assert(cursor_path(cursor_id).subrange(0, 12) =~= prefix);
    assert(cursor_path(cursor_id).subrange(12, 12 + cursor_id.len() as int) =~= cursor_id);
    if cursor_path(cursor_id) == cursor_path(other) {
        assert(cursor_path(other).len() == other.len() + 12);
        assert(cursor_id.len() == other.len());
        assert(cursor_path(other).subrange(12, 12 + other.len() as int) =~= other);
        assert(cursor_id =~= other);
    }
    lemma_path_chars_concat(prefix, cursor_id);
}

/// The fixed endpoints of the database level are plain relative paths.
pub proof fn lemma_endpoints_are_plain()
    ensures
        plain_relative_path("_api/collection"@),
        plain_relative_path("_api/version"@),
        plain_relative_path("_api/database/current"@),
        plain_relative_path("_api/cursor"@),
{
    reveal_strlit("_api/collection");
    reveal_strlit("_api/version");
    reveal_strlit("_api/database/current");
    reveal_strlit("_api/cursor");
    assert("_api/collection"@ =~= seq![
        '_', 'a', 'p', 'i', '/', 'c', 'o', 'l', 'l', 'e', 'c', 't', 'i', 'o', 'n'
    ]);
    assert("_api/version"@ =~= seq!['_', 'a', 'p', 'i', '/', 'v', 'e', 'r', 's', 'i', 'o', 'n']);
    assert("_api/database/current"@ =~= seq![
        '_', 'a', 'p', 'i', '/', 'd', 'a', 't', 'a', 'b', 'a', 's', 'e', '/', 'c', 'u', 'r', 'r',
        'e', 'n', 't'
    ]);
    assert("_api/cursor"@ =~= seq!['_', 'a', 'p', 'i', '/', 'c', 'u', 'r', 's', 'o', 'r']);
}

} // verus!
