//! AQL queries: the query text and the values bound to its variables.
use vstd::prelude::*;
use vstd::pervasive::VecAdditionalExecFns;

verus! {

/// A JSON value of `serde_json`, carried as it is.
#[verifier::external_type_specification]
#[verifier::external_body]
pub struct ExValue(serde_json::Value);

/// The map that a list of (name, value) bindings describes, a later binding
/// of a name replacing an earlier one.
pub open spec fn bound_values(entries: Seq<(String, serde_json::Value)>) -> Map<Seq<char>, serde_json::Value>
    decreases entries.len(),
{
    if entries.len() == 0 {
        Map::empty()
    } else {
        bound_values(entries.drop_last()).insert(entries.last().0@, entries.last().1)
    }
}

/// No name is bound twice in `entries`.
pub open spec fn distinct_names(entries: Seq<(String, serde_json::Value)>) -> bool {
    forall|i: int, j: int|
        0 <= i < entries.len() && 0 <= j < entries.len() && i != j ==> (#[trigger] entries[i]).0@
            != (#[trigger] entries[j]).0@
}

/// An AQL query: its text and the values bound to its variables
/// (`@name` in the text), each name bound once.
#[derive(Debug)]
pub struct AqlQuery {
    query: String,
    bind_vars: Vec<(String, serde_json::Value)>,
}

/// What an [`AqlQuery`] is: its text and the map from variable names to
/// their values.
pub struct AqlQueryView {
    pub query: Seq<char>,
    pub bind_vars: Map<Seq<char>, serde_json::Value>,
}

impl View for AqlQuery {
    type V = AqlQueryView;

    closed spec fn view(&self) -> AqlQueryView {
        AqlQueryView { query: self.query@, bind_vars: bound_values(self.bind_vars@) }
    }
}

/// Replacing the value of a name that is bound once replaces it in the map.
proof fn lemma_bound_values_update(
    entries: Seq<(String, serde_json::Value)>,
    i: int,
    key: String,
    value: serde_json::Value,
)
    requires
        distinct_names(entries),
        0 <= i < entries.len(),
        entries[i].0@ == key@,
    ensures
        bound_values(entries.update(i, (key, value))) == bound_values(entries).insert(key@, value),
        distinct_names(entries.update(i, (key, value))),
    decreases entries.len(),
{
    let updated = entries.update(i, (key, value));
    assert(distinct_names(updated)) by {
        assert forall|a: int, b: int|
            0 <= a < updated.len() && 0 <= b < updated.len() && a != b implies (#[trigger] updated[a]).0@
            != (#[trigger] updated[b]).0@ by {
            assert(entries[a].0@ != entries[b].0@);
        }
    }
    if i == entries.len() - 1 {
        assert(updated.drop_last() =~= entries.drop_last());
        assert(bound_values(updated) =~= bound_values(entries).insert(key@, value));
    } else {
        let rest = entries.drop_last();
        assert(distinct_names(rest)) by {
            assert forall|a: int, b: int|
                0 <= a < rest.len() && 0 <= b < rest.len() && a != b implies (#[trigger] rest[a]).0@
                != (#[trigger] rest[b]).0@ by {
                assert(entries[a].0@ != entries[b].0@);
            }
        }
        lemma_bound_values_update(rest, i, key, value);
        assert(updated.drop_last() =~= rest.update(i, (key, value)));
        assert(entries.last().0@ != key@) by {
            assert(entries[entries.len() - 1].0@ != entries[i].0@);
        }
        assert(bound_values(updated) =~= bound_values(entries).insert(key@, value));
    }
}

impl AqlQuery {
    #[verifier::type_invariant]
    spec fn names_distinct(self) -> bool {
        distinct_names(self.bind_vars@)
    }

    /// A query with text `query` and no variable bound.
    pub fn new(query: &str) -> (q: AqlQuery)
        ensures
            q@.query == query@,
            q@.bind_vars == Map::<Seq<char>, serde_json::Value>::empty(),
    {
        AqlQuery { query: query.to_owned(), bind_vars: Vec::new() }
    }

    /// The same query with variable `key` bound to `value`; a value that
    /// `key` had before is replaced.
    pub fn bind_var(self, key: &str, value: serde_json::Value) -> (q: AqlQuery)
        ensures
            q@.query == self@.query,
            q@.bind_vars == self@.bind_vars.insert(key@, value),
    {
        proof {
            use_type_invariant(&self);
        }
        let AqlQuery { query, bind_vars } = self;
        let mut bind_vars = bind_vars;
        let name = key.to_owned();
        let ghost entries = bind_vars@;
        let mut i: usize = 0;
        while i < bind_vars.len()
            invariant
                i <= bind_vars.len(),
                bind_vars@ == entries,
                entries == self.bind_vars@,
                query@ == self@.query,
                distinct_names(bind_vars@),
                name@ == key@,
                forall|j: int| 0 <= j < i ==> (#[trigger] bind_vars@[j]).0@ != key@,
            decreases bind_vars.len() - i,
        {
            if bind_vars[i].0 == name {
                proof {
                    lemma_bound_values_update(bind_vars@, i as int, name, value);
                }
                bind_vars.set(i, (name, value));
                return AqlQuery { query, bind_vars };
            }
            i = i + 1;
        }
        let ghost before = bind_vars@;
        bind_vars.push((name, value));
        proof {
            assert(bind_vars@.drop_last() =~= before);
            assert forall|a: int, b: int|
                0 <= a < bind_vars@.len() && 0 <= b < bind_vars@.len() && a != b implies (
            #[trigger] bind_vars@[a]).0@ != (#[trigger] bind_vars@[b]).0@ by {
                if a < before.len() && b < before.len() {
                    assert(before[a].0@ != before[b].0@);
                }
            }
        }
        AqlQuery { query, bind_vars }
    }

    /// The text of the query.
    pub fn query(&self) -> (text: &str)
        ensures
            text@ == self@.query,
    {
        self.query.as_str()
    }

    /// The bindings of the query, each name once.
    pub fn bind_vars(&self) -> (entries: &Vec<(String, serde_json::Value)>)
        ensures
            bound_values(entries@) == self@.bind_vars,
            distinct_names(entries@),
    {
        proof {
            use_type_invariant(self);
        }
        &self.bind_vars
    }

    /// The text of the query and its bindings, each name once.
    pub fn into_parts(self) -> (parts: (String, Vec<(String, serde_json::Value)>))
        ensures
            parts.0@ == self@.query,
            bound_values(parts.1@) == self@.bind_vars,
            distinct_names(parts.1@),
    {
        proof {
            use_type_invariant(&self);
        }
        let AqlQuery { query, bind_vars } = self;
        (query, bind_vars)
    }
}

/// Binding variables whose names are all different: each variable is bound
/// to the value given for it, whatever the order of the bindings, and no
/// other variable is bound.
pub proof fn lemma_distinct_bindings_all_bound(entries: Seq<(String, serde_json::Value)>)
    requires
        distinct_names(entries),
    ensures
        forall|i: int|
            0 <= i < entries.len() ==> #[trigger] bound_values(entries).dom().contains(entries[i].0@)
                && bound_values(entries)[entries[i].0@] == entries[i].1,
        forall|k: Seq<char>|
            #[trigger] bound_values(entries).dom().contains(k) ==> exists|i: int|
                0 <= i < entries.len() && (#[trigger] entries[i]).0@ == k,
    decreases entries.len(),
{
    if entries.len() > 0 {
        let rest = entries.drop_last();
        assert(distinct_names(rest)) by {
            assert forall|a: int, b: int|
                0 <= a < rest.len() && 0 <= b < rest.len() && a != b implies (#[trigger] rest[a]).0@
                != (#[trigger] rest[b]).0@ by {
                assert(entries[a].0@ != entries[b].0@);
            }
        }
        lemma_distinct_bindings_all_bound(rest);
        assert forall|i: int| 0 <= i < entries.len() implies #[trigger] bound_values(
            entries,
        ).dom().contains(entries[i].0@) && bound_values(entries)[entries[i].0@] == entries[i].1 by {
            if i < entries.len() - 1 {
                assert(entries[i].0@ != entries[entries.len() - 1].0@);
                assert(rest[i] == entries[i]);
                assert(bound_values(rest).dom().contains(rest[i].0@));
            } else {
                assert(entries[i] == entries.last());
            }
        }
        assert forall|k: Seq<char>| #[trigger] bound_values(entries).dom().contains(k) implies exists|
            i: int,
        | 0 <= i < entries.len() && (#[trigger] entries[i]).0@ == k by {
            if k != entries.last().0@ {
                assert(bound_values(rest).dom().contains(k));
                let j = choose|j: int| 0 <= j < rest.len() && (#[trigger] rest[j]).0@ == k;
                assert(entries[j] == rest[j]);
            } else {
                assert(entries[entries.len() - 1].0@ == k);
            }
        }
    }
}

/// Binding a variable a second time keeps the second value only: the query
/// is as if the first binding had not been made.
pub proof fn lemma_rebinding_keeps_last(
    q: AqlQueryView,
    key: Seq<char>,
    first: serde_json::Value,
    second: serde_json::Value,
)
    ensures
        q.bind_vars.insert(key, first).insert(key, second) == q.bind_vars.insert(key, second),
{
    assert(q.bind_vars.insert(key, first).insert(key, second) =~= q.bind_vars.insert(key, second));
}

} // verus!
