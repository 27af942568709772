//! The batches in which the server hands out the results of an AQL query,
//! and the gathering of all of them into one list.
use vstd::prelude::*;

verus! {

/// One batch of the results of an AQL query. Where `more` holds, the server
/// keeps further batches under the cursor `id`.
#[derive(Debug)]
pub struct Cursor<R> {
    pub result: Vec<R>,
    pub more: bool,
    pub id: Option<String>,
}

impl<R> Cursor<R> {
    /// A batch that the server hands out is well-formed when a batch with
    /// more to come names the cursor that holds the rest.
    pub open spec fn well_formed(&self) -> bool {
        self.more ==> self.id is Some
    }
}

/// What to do after a batch has been taken in: fetch the next batch of the
/// cursor that is named, or stop.
#[derive(Debug)]
pub enum FetchStep {
    NextBatch(String),
    Done,
}

/// The results gathered so far from the batches of one query, and whether
/// the last batch has been taken in.
pub struct ResultGatherer<R> {
    results: Vec<R>,
    finished: bool,
}

/// What a [`ResultGatherer`] holds.
pub struct GathererView<R> {
    pub results: Seq<R>,
    pub finished: bool,
}

impl<R> View for ResultGatherer<R> {
    type V = GathererView<R>;

    closed spec fn view(&self) -> GathererView<R> {
        GathererView { results: self.results@, finished: self.finished }
    }
}

/// The state in which gathering starts: nothing gathered, not finished.
pub open spec fn initial_gatherer<R>() -> GathererView<R> {
    GathererView { results: Seq::empty(), finished: false }
}

/// Taking in one batch: its results are appended to those gathered so far;
/// where more is to come the next batch of the cursor is asked for, else
/// gathering is finished.
pub open spec fn gather_step<R>(state: GathererView<R>, batch: Cursor<R>) -> (GathererView<R>, FetchStep) {
    (
        GathererView { results: state.results + batch.result@, finished: !batch.more },
        if batch.more {
            FetchStep::NextBatch(batch.id->0)
        } else {
            FetchStep::Done
        },
    )
}

/// The state after taking in each of `batches` in turn, from `state`.
pub open spec fn gather_all<R>(state: GathererView<R>, batches: Seq<Cursor<R>>) -> GathererView<R>
    decreases batches.len(),
{
    if batches.len() == 0 {
        state
    } else {
        gather_step(gather_all(state, batches.drop_last()), batches.last()).0
    }
}

/// The results that each of `batches` carries, one sequence per batch.
pub open spec fn batch_results<R>(batches: Seq<Cursor<R>>) -> Seq<Seq<R>> {
    batches.map_values(|c: Cursor<R>| c.result@)
}

/// A complete exchange with the server: every batch is well-formed, every
/// batch but the last announces more, and the last announces none.
pub open spec fn complete_exchange<R>(batches: Seq<Cursor<R>>) -> bool {
    &&& batches.len() > 0
    &&& forall|i: int| 0 <= i < batches.len() ==> (#[trigger] batches[i]).well_formed()
    &&& forall|i: int| 0 <= i < batches.len() - 1 ==> (#[trigger] batches[i]).more
    &&& !batches.last().more
}

impl<R> ResultGatherer<R> {
    /// A gatherer that holds nothing yet.
    pub fn new() -> (g: Self)
        ensures
            g@ == initial_gatherer::<R>(),
    {
        ResultGatherer { results: Vec::new(), finished: false }
    }

    /// Takes in the next batch of the query and says what to do next.
    pub fn step(&mut self, batch: Cursor<R>) -> (next: FetchStep)
        requires
            !old(self)@.finished,
            batch.well_formed(),
        ensures
            (final(self)@, next) == gather_step(old(self)@, batch),
    {
        let Cursor { result, more, id } = batch;
        let mut result = result;
        self.results.append(&mut result);
        self.finished = !more;
        if more {
            match id {
                Some(cursor_id) => FetchStep::NextBatch(cursor_id),
                None => FetchStep::Done,
            }
        } else {
            FetchStep::Done
        }
    }

    /// Whether the last batch has been taken in.
    pub fn is_finished(&self) -> (f: bool)
        ensures
            f == self@.finished,
    {
        self.finished
    }

    /// All results gathered, in the order in which they came.
    pub fn into_results(self) -> (results: Vec<R>)
        ensures
            results@ == self@.results,
    {
        self.results
    }
}

/// Gathering over a sequence of batches yields the concatenation of their
/// results, in the order of the batches.
pub proof fn lemma_gather_all_concatenates<R>(batches: Seq<Cursor<R>>)
    ensures
        gather_all(initial_gatherer::<R>(), batches).results == batch_results(batches).flatten(),
    decreases batches.len(),
{
    batch_results(batches).lemma_flatten_and_flatten_alt_are_equivalent();
    if batches.len() > 0 {
        lemma_gather_all_concatenates(batches.drop_last());
        assert(batch_results(batches).drop_last() =~= batch_results(batches.drop_last()));
        batch_results(batches.drop_last()).lemma_flatten_and_flatten_alt_are_equivalent();
    } else {
        assert(batch_results(batches) =~= Seq::<Seq<R>>::empty());
    }
}

/// Fetching all results of a query: over a complete exchange, taken in batch
/// by batch from the start, every batch but the last asks for the next batch
/// of the cursor that it names, the last one stops, and what is gathered is
/// every result of every batch, the last batch's included, in order.
pub proof fn lemma_fetch_all_gathers_every_batch<R>(batches: Seq<Cursor<R>>)
    requires
        complete_exchange(batches),
    ensures
        forall|i: int|
            0 <= i < batches.len() ==> !(#[trigger] gather_all(initial_gatherer::<R>(), batches.take(i))).finished,
        forall|i: int|
            0 <= i < batches.len() - 1 ==> (#[trigger] gather_step(
                gather_all(initial_gatherer::<R>(), batches.take(i)),
                batches[i],
            )).1 == FetchStep::NextBatch(batches[i].id->0),
        gather_step(
            gather_all(initial_gatherer::<R>(), batches.take(batches.len() - 1)),
            batches.last(),
        ).1 == FetchStep::Done,
        gather_all(initial_gatherer::<R>(), batches).finished,
        gather_all(initial_gatherer::<R>(), batches).results == batch_results(batches).flatten(),
{
    lemma_gather_all_concatenates(batches);
    assert forall|i: int| 0 <= i < batches.len() implies !(#[trigger] gather_all(
        initial_gatherer::<R>(),
        batches.take(i),
    )).finished by {
        if i > 0 {
            assert(batches.take(i).drop_last() =~= batches.take(i - 1));
            assert(batches.take(i).last() == batches[i - 1]);
        }
    }
    assert(batches.take(batches.len() as int).drop_last() =~= batches.take(batches.len() - 1));
    assert(batches.take(batches.len() as int) =~= batches);
}

} // verus!
