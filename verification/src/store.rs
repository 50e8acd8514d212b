//! The record store: the metadata log and the index handle kept in
//! lock-step. Identifier `i` names line `i` of the log and vector `i` of the
//! index. An addition appends to the log first and to the index second; when
//! the second step does not happen the log is one record ahead, and the
//! store replays that record when it is next opened.
//!
//! The embedding and the engine are outside this library. The caller embeds
//! the text, asks the engine, and reports what came back: an addition is
//! [`RecordStore::prepare_add`], the embedding, [`RecordStore::stage_add`],
//! the engine's insertion, and [`RecordStore::complete_add`]; a search is
//! [`RecordStore::prepare_search`], the embedding, the engine's ranking, and
//! [`RecordStore::hydrate`].
//!
//! The two steps of an addition take the store by `&mut`, so no other
//! addition and no search can run between them on the same store; searches
//! take it by `&` and may run side by side. A caller that shares the store
//! among threads holds a lock for writing across both steps.

use crate::api::models::{review_fault, search_fault, validate_review, validate_search};
use crate::embedding::{review_text, EmbeddingService};
use crate::index::{
    add_fault, dense, lemma_dense_len, IndexError, IndexView, VectorIndexHandle,
};
use crate::storage::jsonl::{
    decoded_record, encoded_record, JsonlStorage, LogView, RecordView, ReviewMetadata,
    StorageError,
};
use vstd::prelude::*;

verus! {

/// Where the store stands between the log and the index.
#[derive(Debug, Clone, Copy, PartialEq, Eq, Structural)]
pub enum Phase {
    /// The log and the index hold the same records.
    Ready,
    /// The log holds the record with this identifier and the index does not
    /// yet: its vector is awaited.
    Staged(usize),
    /// The index did not take the vector of this record. No addition is
    /// accepted until the store is opened again.
    Diverged(usize),
}

/// Why the store refused an operation.
#[derive(Debug, PartialEq, Eq)]
pub enum StoreError {
    /// The input breaks a rule; nothing was changed.
    Validation(String),
    /// The embedding model failed; nothing was changed. The store never
    /// reports this itself: the caller that runs the model does.
    Embedding(String),
    /// The index did not take a vector.
    Index(IndexError),
    /// The log and the index disagree in a way that no replay can mend.
    Corruption { log_count: usize, index_count: usize },
    /// The log could not be read or written.
    Storage(StorageError),
    /// The record with this identifier is in the log and not in the index;
    /// the store has to be opened again before it accepts an addition.
    RecoveryPending(usize),
    /// No record awaits its vector.
    NothingStaged,
}

/// One search result: a record, its identifier, and its place in the
/// engine's ranking.
#[derive(Debug, PartialEq, Eq)]
pub struct SearchHit {
    pub rank: usize,
    pub vector_id: usize,
    pub metadata: ReviewMetadata,
}

/// The mathematical content of a [`RecordStore`].
pub struct StoreView {
    pub log: LogView,
    pub index: IndexView,
    pub phase: Phase,
}

/// The invariant of the store. At rest the index holds exactly the
/// identifiers of the lines of the log. While a record awaits its vector,
/// and after the index refused it, the log is ahead by that one record.
pub open spec fn consistent(v: StoreView) -> bool {
    &&& v.log.present
    &&& v.log.lines.len() <= usize::MAX
    &&& match v.phase {
        Phase::Ready => v.index.ids == dense(v.log.lines.len()),
        Phase::Staged(id) => v.log.lines.len() == id + 1 && v.index.ids == dense(id as nat),
        Phase::Diverged(id) => v.log.lines.len() == id + 1 && v.index.ids == dense(id as nat),
    }
}

/// What opening a store makes of a log and an index: a store at rest where
/// the two hold the same identifiers, a store that awaits the vector of the
/// last record where the log is ahead by exactly that record, and nothing
/// otherwise.
pub open spec fn reconciled(log: LogView, index: IndexView) -> Option<StoreView> {
    let held = index.ids.len();
    let opened = LogView { present: true, lines: log.lines };
    if index.ids != dense(held) {
        None
    } else if log.lines.len() == held {
        Some(StoreView { log: opened, index, phase: Phase::Ready })
    } else if log.lines.len() == held + 1 {
        Some(StoreView { log: opened, index, phase: Phase::Staged(held as usize) })
    } else {
        None
    }
}

/// The first step of an addition: the record goes to the end of the log,
/// and its line number is its identifier.
pub open spec fn staged(pre: StoreView, post: StoreView, record: RecordView, id: usize) -> bool {
    &&& pre.phase == Phase::Ready
    &&& id == pre.log.lines.len()
    &&& post.log.present
    &&& post.log.lines == pre.log.lines.push(encoded_record(record))
    &&& post.index == pre.index
    &&& post.phase == Phase::Staged(id)
}

/// The second step of an addition: the index takes the vector under the
/// identifier of the record, and the log stays as it is.
pub open spec fn completed(pre: StoreView, post: StoreView, id: usize) -> bool {
    &&& pre.phase == Phase::Staged(id)
    &&& post.log == pre.log
    &&& post.index.dimension == pre.index.dimension
    &&& post.index.kind == pre.index.kind
    &&& post.index.ids == pre.index.ids.insert(id)
    &&& post.phase == Phase::Ready
}

/// A whole addition: both steps, one after the other.
pub open spec fn added(pre: StoreView, post: StoreView, record: RecordView, id: usize) -> bool {
    exists|mid: StoreView| staged(pre, mid, record, id) && completed(mid, post, id)
}

/// The places in a ranking whose identifiers name a record of a log with
/// `count` records, in ascending order.
pub open spec fn resolvable(ranked: Seq<usize>, count: nat) -> Seq<int>
    decreases ranked.len(),
{
    if ranked.len() == 0 {
        Seq::empty()
    } else {
        let rest = resolvable(ranked.drop_last(), count);
        if (ranked.last() as nat) < count {
            rest.push(ranked.len() - 1)
        } else {
            rest
        }
    }
}

/// At rest the log and the index hold the same number of records.
pub proof fn lemma_counts_agree(v: StoreView)
    requires
        consistent(v),
        v.phase == Phase::Ready,
    ensures
        v.index.ids.finite(),
        v.index.ids.len() == v.log.lines.len(),
{
    lemma_dense_len(v.log.lines.len());
}

/// While a record awaits its vector, or after the index refused it, the log
/// is ahead of the index by exactly one record.
pub proof fn lemma_log_one_ahead(v: StoreView)
    requires
        consistent(v),
        v.phase != Phase::Ready,
    ensures
        v.index.ids.finite(),
        v.log.lines.len() == v.index.ids.len() + 1,
{
    match v.phase {
        Phase::Ready => {},
        Phase::Staged(id) => {
            lemma_dense_len(id as nat);
        },
        Phase::Diverged(id) => {
            lemma_dense_len(id as nat);
        },
    }
}

/// A first step keeps the invariant, whatever the record.
pub proof fn lemma_staged_consistent(
    pre: StoreView,
    post: StoreView,
    record: RecordView,
    id: usize,
)
    requires
        consistent(pre),
        staged(pre, post, record, id),
        post.log.lines.len() <= usize::MAX,
    ensures
        consistent(post),
{
}

/// A second step restores the invariant at rest. In a consistent store the
/// identifier of the awaited record is never in the index already.
pub proof fn lemma_completed_consistent(pre: StoreView, post: StoreView, id: usize)
    requires
        consistent(pre),
        completed(pre, post, id),
    ensures
        consistent(post),
        !pre.index.ids.contains(id),
{
    assert(dense(id as nat).insert(id) =~= dense((id + 1) as nat));
}

/// A whole addition keeps the invariant, returns the number of records
/// before it as the identifier, and leaves the log and the index one
/// record larger, with the counts equal.
pub proof fn lemma_added(pre: StoreView, post: StoreView, record: RecordView, id: usize)
    requires
        consistent(pre),
        added(pre, post, record, id),
        pre.log.lines.len() < usize::MAX,
    ensures
        consistent(post),
        post.phase == Phase::Ready,
        id == pre.log.lines.len(),
        post.log.lines == pre.log.lines.push(encoded_record(record)),
        post.index.ids == dense((id + 1) as nat),
        post.index.ids.len() == post.log.lines.len(),
{
    let mid = choose|mid: StoreView| staged(pre, mid, record, id) && completed(mid, post, id);
    lemma_staged_consistent(pre, mid, record, id);
    lemma_completed_consistent(mid, post, id);
    lemma_counts_agree(post);
}

/// Recoverability: when an addition stops after its first step, opening a
/// store on the log and the index as they then stand gives a store in which
/// the same record awaits its vector. It makes no difference whether the
/// process ended there or the index refused the vector: the log and the
/// index are the same in both cases. Completing the replay brings the store
/// to rest with the log as it was, so no record is lost, with the record in
/// the index, and with the counts equal. The text that is embedded for the
/// replay is read from the line that the addition wrote.
pub proof fn lemma_interrupted_add_is_replayed(
    pre: StoreView,
    stopped: StoreView,
    record: RecordView,
    id: usize,
    post: StoreView,
)
    requires
        consistent(pre),
        staged(pre, stopped, record, id),
        stopped.log.lines.len() <= usize::MAX,
        completed(stopped, post, id),
    ensures
        reconciled(stopped.log, stopped.index) == Some(stopped),
        stopped.log.lines[id as int] == encoded_record(record),
        consistent(post),
        post.phase == Phase::Ready,
        post.log.lines == pre.log.lines.push(encoded_record(record)),
        post.index.ids.contains(id),
        post.index.ids.len() == post.log.lines.len(),
{
    lemma_dense_len(id as nat);
    lemma_completed_consistent(stopped, post, id);
    lemma_counts_agree(post);
}

/// Identifier density: when `ids.len()` additions follow one another on a
/// store that starts empty, the `i`-th of them returns the identifier `i`.
/// So the identifiers returned are `0, 1, .., N - 1`, each once and in the
/// order of the calls, and the store ends with `N` records in the log and in
/// the index.
pub proof fn lemma_identifier_density(
    states: Seq<StoreView>,
    records: Seq<RecordView>,
    ids: Seq<usize>,
)
    requires
        states.len() == ids.len() + 1,
        records.len() == ids.len(),
        ids.len() < usize::MAX,
        consistent(states[0]),
        states[0].phase == Phase::Ready,
        states[0].log.lines.len() == 0,
        forall|i: int|
            0 <= i < ids.len() ==> added(
                #[trigger] states[i],
                states[i + 1],
                records[i],
                ids[i],
            ),
    ensures
        forall|i: int| 0 <= i < ids.len() ==> #[trigger] ids[i] == i,
        ids.no_duplicates(),
        ids.to_set() == dense(ids.len()),
        consistent(states.last()),
        states.last().phase == Phase::Ready,
        states.last().log.lines.len() == ids.len(),
        states.last().index.ids.len() == ids.len(),
    decreases ids.len(),
{
    if ids.len() == 0 {
        lemma_counts_agree(states[0]);
        assert(ids.to_set() =~= dense(0));
    } else {
        let n = ids.len() - 1;
        lemma_identifier_density(states.drop_last(), records.drop_last(), ids.drop_last());
        assert(states.drop_last().last() == states[n]);
        assert(added(states[n], states[n + 1], records[n], ids[n]));
        lemma_added(states[n], states[n + 1], records[n], ids[n]);
        assert forall|i: int| 0 <= i < ids.len() implies #[trigger] ids[i] == i by {
            if i < n {
                assert(ids.drop_last()[i] == i);
            }
        }
        assert(ids.to_set() =~= dense(ids.len())) by {
            assert forall|id: usize| ids.to_set().contains(id) <==> dense(ids.len()).contains(
                id,
            ) by {
                if (id as nat) < ids.len() {
                    assert(ids[id as int] == id);
                }
            }
        }
    }
}

/// Taking one more place of a ranking adds it to the resolvable places
/// exactly when its identifier names a record.
pub proof fn lemma_resolvable_step(ranked: Seq<usize>, count: nat, i: int)
    requires
        0 <= i < ranked.len(),
    ensures
        resolvable(ranked.take(i + 1), count) == if (ranked[i] as nat) < count {
            resolvable(ranked.take(i), count).push(i)
        } else {
            resolvable(ranked.take(i), count)
        },
{
    assert(ranked.take(i + 1).drop_last() == ranked.take(i));
    assert(ranked.take(i + 1).last() == ranked[i]);
}

/// The resolvable places of the first part of a ranking are the first of
/// the resolvable places of the whole.
pub proof fn lemma_resolvable_prefix(ranked: Seq<usize>, count: nat, i: int)
    requires
        0 <= i <= ranked.len(),
    ensures
        resolvable(ranked.take(i), count).len() <= resolvable(ranked, count).len(),
        forall|j: int|
            0 <= j < resolvable(ranked.take(i), count).len() ==> resolvable(ranked, count)[j]
                == #[trigger] resolvable(ranked.take(i), count)[j],
    decreases ranked.len(),
{
    if i == ranked.len() {
        assert(ranked.take(i) == ranked);
    } else {
        assert(ranked.drop_last().take(i) == ranked.take(i));
        lemma_resolvable_prefix(ranked.drop_last(), count, i);
    }
}

/// Every resolvable place lies in the ranking and holds an identifier that
/// names a record, and the places ascend.
pub proof fn lemma_resolvable_places(ranked: Seq<usize>, count: nat)
    ensures
        resolvable(ranked, count).len() <= ranked.len(),
        forall|j: int|
            0 <= j < resolvable(ranked, count).len() ==> {
                let place = #[trigger] resolvable(ranked, count)[j];
                0 <= place < ranked.len() && (ranked[place] as nat) < count && j <= place
            },
        forall|a: int, b: int|
            0 <= a < b < resolvable(ranked, count).len() ==> resolvable(ranked, count)[a]
                < resolvable(ranked, count)[b],
    decreases ranked.len(),
{
    if ranked.len() > 0 {
        lemma_resolvable_places(ranked.drop_last(), count);
        let rest = resolvable(ranked.drop_last(), count);
        assert forall|j: int| 0 <= j < resolvable(ranked, count).len() implies {
            let place = #[trigger] resolvable(ranked, count)[j];
            0 <= place < ranked.len() && (ranked[place] as nat) < count && j <= place
        } by {
            if j < rest.len() {
                let place = rest[j];
                assert(ranked.drop_last()[place] == ranked[place]);
            }
        }
        assert forall|a: int, b: int|
            0 <= a < b < resolvable(ranked, count).len() implies resolvable(ranked, count)[a]
            < resolvable(ranked, count)[b] by {
            if b == rest.len() {
                let place = rest[a];
                assert(place < ranked.drop_last().len());
            }
        }
    }
}

/// The best-ranked identifier, when it names a record, comes first among
/// the resolvable places.
pub proof fn lemma_top_rank_kept(ranked: Seq<usize>, count: nat)
    requires
        ranked.len() > 0,
        (ranked[0] as nat) < count,
    ensures
        resolvable(ranked, count).len() > 0,
        resolvable(ranked, count)[0] == 0,
{
    lemma_resolvable_step(ranked, count, 0);
    assert(ranked.take(0) == Seq::<usize>::empty());
    assert(resolvable(ranked.take(1), count) == Seq::<int>::empty().push(0));
    assert(resolvable(ranked.take(1), count)[0] == 0);
    lemma_resolvable_prefix(ranked, count, 1);
}

/// The record store.
#[derive(Debug)]
pub struct RecordStore {
    log: JsonlStorage,
    index: VectorIndexHandle,
    phase: Phase,
}

impl View for RecordStore {
    type V = StoreView;

    closed spec fn view(&self) -> StoreView {
        StoreView { log: self.log@, index: self.index@, phase: self.phase }
    }
}

impl RecordStore {
    /// The store is well formed: its invariant holds.
    pub open spec fn wf(&self) -> bool {
        consistent(self@)
    }

    /// Opens a store on a log and an index, and reconciles the two. A log
    /// whose backing file does not exist yet is created empty. Where the two
    /// hold the same identifiers the store is ready. Where the log is ahead
    /// by exactly one record, that record awaits its vector: see
    /// [`RecordStore::pending_text`]. Any other difference is corruption,
    /// and no store is made.
    pub fn open(log: JsonlStorage, index: VectorIndexHandle) -> (r: Result<Self, StoreError>)
        requires
            index.wf(),
        ensures
            match r {
                Ok(store) => store.wf() && reconciled(log@, index@) == Some(store@),
                Err(e) => {
                    &&& reconciled(log@, index@) is None
                    &&& e matches StoreError::Corruption { log_count, index_count }
                    &&& log_count == log@.lines.len()
                    &&& index_count == index@.ids.len()
                },
            },
    {
        let mut opened = log;
        opened.initialize();
        let log_count = opened.count_lines();
        let index_count = index.count();
        let mut id: usize = 0;
        while id < index_count
            invariant
                0 <= id <= index_count,
                index_count == index@.ids.len(),
                log_count == log@.lines.len(),
                forall|k: usize| k < id ==> index@.ids.contains(k),
            decreases index_count - id,
        {
            if !index.contains(id) {
                proof {
                    assert(dense(index_count as nat).contains(id));
                }
                return Err(StoreError::Corruption { log_count, index_count });
            }
            id = id + 1;
        }
        proof {
            lemma_dense_len(index_count as nat);
            assert(dense(index_count as nat).subset_of(index@.ids));
            vstd::set_lib::lemma_subset_equality(dense(index_count as nat), index@.ids);
        }
        if log_count == index_count {
            Ok(RecordStore { log: opened, index, phase: Phase::Ready })
        } else if index_count < log_count && log_count - index_count == 1 {
            Ok(RecordStore { log: opened, index, phase: Phase::Staged(index_count) })
        } else {
            Err(StoreError::Corruption { log_count, index_count })
        }
    }

    /// Takes the store apart, as when the process ends.
    pub fn into_parts(self) -> (parts: (JsonlStorage, VectorIndexHandle))
        ensures
            parts.0@ == self@.log,
            parts.1@ == self@.index,
    {
        (self.log, self.index)
    }

    /// The metadata log.
    pub fn log(&self) -> (log: &JsonlStorage)
        ensures
            log@ == self@.log,
    {
        &self.log
    }

    /// The index handle.
    pub fn index(&self) -> (index: &VectorIndexHandle)
        ensures
            index@ == self@.index,
    {
        &self.index
    }

    /// Where the store stands.
    pub fn phase(&self) -> (phase: Phase)
        ensures
            phase == self@.phase,
    {
        self.phase
    }

    /// The number of records in the log.
    pub fn count(&self) -> (count: usize)
        ensures
            count == self@.log.lines.len(),
    {
        self.log.count_lines()
    }

    /// Checks a review and returns the text to embed for it. Nothing is
    /// changed.
    pub fn prepare_add(title: &str, body: &str, product_id: &str, rating: u8) -> (r: Result<
        String,
        StoreError,
    >)
        ensures
            match r {
                Ok(text) => {
                    &&& review_fault(title@, body@, product_id@, rating) is None
                    &&& text@ == review_text(title@, body@)
                },
                Err(e) => {
                    &&& e matches StoreError::Validation(message)
                    &&& review_fault(title@, body@, product_id@, rating) == Some(message@)
                },
            },
    {
        match validate_review(title, body, product_id, rating) {
            Ok(_) => Ok(EmbeddingService::prepare_review_text(title, body)),
            Err(message) => Err(StoreError::Validation(message)),
        }
    }

    /// Checks a search before the query is embedded. Nothing is changed.
    pub fn prepare_search(query: &str, top_k: usize) -> (r: Result<(), StoreError>)
        ensures
            match r {
                Ok(_) => search_fault(query@, top_k) is None,
                Err(e) => {
                    &&& e matches StoreError::Validation(message)
                    &&& search_fault(query@, top_k) == Some(message@)
                },
            },
    {
        match validate_search(query, top_k) {
            Ok(_) => Ok(()),
            Err(message) => Err(StoreError::Validation(message)),
        }
    }

    /// The first step of an addition: checks the review, then appends it to
    /// the log and returns its identifier, the number of records before the
    /// call. The record then awaits its vector. A review with a fault is
    /// refused with `Validation`; a store that is not at rest refuses with
    /// `RecoveryPending`. A refusal changes nothing. Every other addition is
    /// accepted.
    pub fn stage_add(&mut self, title: &str, body: &str, product_id: &str, rating: u8) -> (r:
        Result<usize, StoreError>)
        requires
            old(self).wf(),
        ensures
            final(self).wf(),
            match review_fault(title@, body@, product_id@, rating) {
                Some(fault) => {
                    &&& r matches Err(StoreError::Validation(message))
                    &&& message@ == fault
                    &&& final(self)@ == old(self)@
                },
                None => match old(self)@.phase {
                    Phase::Ready => {
                        &&& r matches Ok(id)
                        &&& staged(
                            old(self)@,
                            final(self)@,
                            RecordView {
                                review_title: title@,
                                review_body: body@,
                                product_id: product_id@,
                                review_rating: rating,
                            },
                            id,
                        )
                    },
                    Phase::Staged(id) => {
                        &&& r matches Err(StoreError::RecoveryPending(pending))
                        &&& pending == id
                        &&& final(self)@ == old(self)@
                    },
                    Phase::Diverged(id) => {
                        &&& r matches Err(StoreError::RecoveryPending(pending))
                        &&& pending == id
                        &&& final(self)@ == old(self)@
                    },
                },
            },
    {
        match validate_review(title, body, product_id, rating) {
            Ok(_) => {},
            Err(message) => {
                return Err(StoreError::Validation(message));
            },
        }
        match self.phase {
            Phase::Ready => {},
            Phase::Staged(id) => {
                return Err(StoreError::RecoveryPending(id));
            },
            Phase::Diverged(id) => {
                return Err(StoreError::RecoveryPending(id));
            },
        }
        let metadata = ReviewMetadata {
            review_title: title.to_owned(),
            review_body: body.to_owned(),
            product_id: product_id.to_owned(),
            review_rating: rating,
        };
        match self.log.append(&metadata) {
            Ok(id) => {
                self.phase = Phase::Staged(id);
                Ok(id)
            },
            Err(e) => Err(StoreError::Storage(e)),
        }
    }

    /// The second step of an addition, and of a replay: takes note of what
    /// the engine did with the vector of the awaited record. A vector of the
    /// wrong length is refused with `Index(DimensionMismatch)` whatever the
    /// engine said; a vector that the engine did not take is refused with
    /// `Index(Rejected)`. After either the log stays one record ahead, and
    /// the store accepts no addition until it is opened again. Otherwise
    /// the index holds the identifier, the store is at rest, and the
    /// identifier is returned. The log is never changed.
    pub fn complete_add(&mut self, vector_len: usize, engine_accepted: bool) -> (r: Result<
        usize,
        StoreError,
    >)
        requires
            old(self).wf(),
        ensures
            final(self).wf(),
            final(self)@.log == old(self)@.log,
            match old(self)@.phase {
                Phase::Ready => r matches Err(StoreError::NothingStaged) && final(self)@ == old(
                    self,
                )@,
                Phase::Diverged(id) => r matches Err(StoreError::RecoveryPending(pending))
                    && pending == id && final(self)@ == old(self)@,
                Phase::Staged(id) => match add_fault(old(self)@.index, id, vector_len) {
                    Some(fault) => {
                        &&& r matches Err(StoreError::Index(found))
                        &&& found == fault
                        &&& final(self)@.index == old(self)@.index
                        &&& final(self)@.phase == Phase::Diverged(id)
                    },
                    None => if engine_accepted {
                        r == Ok::<usize, StoreError>(id) && completed(
                            old(self)@,
                            final(self)@,
                            id,
                        )
                    } else {
                        &&& r matches Err(StoreError::Index(IndexError::Rejected))
                        &&& final(self)@.index == old(self)@.index
                        &&& final(self)@.phase == Phase::Diverged(id)
                    },
                },
            },
    {
        let id = match self.phase {
            Phase::Ready => {
                return Err(StoreError::NothingStaged);
            },
            Phase::Diverged(id) => {
                return Err(StoreError::RecoveryPending(id));
            },
            Phase::Staged(id) => id,
        };
        proof {
            lemma_dense_len(id as nat);
        }
        if !engine_accepted {
            return match self.index.check_add(id, vector_len) {
                Ok(_) => {
                    self.phase = Phase::Diverged(id);
                    Err(StoreError::Index(IndexError::Rejected))
                },
                Err(fault) => {
                    self.phase = Phase::Diverged(id);
                    Err(StoreError::Index(fault))
                },
            };
        }
        match self.index.add(id, vector_len) {
            Ok(_) => {
                self.phase = Phase::Ready;
                proof {
                    lemma_completed_consistent(old(self)@, self@, id);
                }
                Ok(id)
            },
            Err(fault) => {
                self.phase = Phase::Diverged(id);
                Err(StoreError::Index(fault))
            },
        }
    }

    /// The record that awaits its vector, with the text to embed for it, as
    /// read back from the log. `None` where no record awaits one.
    pub fn pending_text(&self) -> (r: Result<Option<(usize, String)>, StoreError>)
        requires
            self.wf(),
        ensures
            match self@.phase {
                Phase::Staged(id) => match decoded_record(self@.log.lines[id as int]) {
                    Some(record) => {
                        &&& r matches Ok(Some(pending))
                        &&& pending.0 == id
                        &&& pending.1@ == review_text(record.review_title, record.review_body)
                    },
                    None => r matches Err(StoreError::Storage(StorageError::Malformed(line)))
                        && line == id,
                },
                _ => r matches Ok(None),
            },
    {
        match self.phase {
            Phase::Staged(id) => match self.log.read_by_id(id) {
                Ok(record) => {
                    let text = EmbeddingService::prepare_review_text(
                        record.review_title.as_str(),
                        record.review_body.as_str(),
                    );
                    Ok(Some((id, text)))
                },
                Err(e) => Err(StoreError::Storage(e)),
            },
            _ => Ok(None),
        }
    }

    /// Turns the ranking of a search into results: for each identifier that
    /// names a record, in the order of the ranking, the record with its
    /// identifier and its place in the ranking. An identifier beyond the log
    /// is dropped. The first line asked for that is not a record fails the
    /// search. Nothing is changed.
    pub fn hydrate(&self, ranked: &[usize]) -> (r: Result<Vec<SearchHit>, StoreError>)
        requires
            self.wf(),
        ensures
            ({
                let lines = self@.log.lines;
                let places = resolvable(ranked@, lines.len());
                match r {
                    Ok(hits) => {
                        &&& hits@.len() == places.len()
                        &&& forall|j: int|
                            0 <= j < places.len() ==> {
                                let hit = #[trigger] hits@[j];
                                &&& hit.rank == places[j]
                                &&& hit.vector_id == ranked@[places[j]]
                                &&& decoded_record(lines[hit.vector_id as int]) == Some(
                                    hit.metadata@,
                                )
                            }
                    },
                    Err(e) => exists|j: int|
                        {
                            &&& 0 <= j < places.len()
                            &&& e matches StoreError::Storage(StorageError::Malformed(line))
                            &&& line == ranked@[#[trigger] places[j]]
                            &&& decoded_record(lines[line as int]) is None
                            &&& forall|k: int|
                                0 <= k < j ==> decoded_record(
                                    lines[ranked@[#[trigger] places[k]] as int],
                                ) is Some
                        },
                }
            }),
    {
        let ghost lines = self@.log.lines;
        let ghost count = lines.len();
        let mut hits: Vec<SearchHit> = Vec::new();
        let mut i: usize = 0;
        while i < ranked.len()
            invariant
                self.wf(),
                lines == self@.log.lines,
                count == lines.len(),
                0 <= i <= ranked@.len(),
                hits@.len() == resolvable(ranked@.take(i as int), count).len(),
                forall|j: int|
                    0 <= j < hits@.len() ==> {
                        let hit = #[trigger] hits@[j];
                        let place = resolvable(ranked@.take(i as int), count)[j];
                        &&& hit.rank == place
                        &&& 0 <= place < i
                        &&& hit.vector_id == ranked@[place]
                        &&& decoded_record(lines[hit.vector_id as int]) == Some(hit.metadata@)
                    },
            decreases ranked@.len() - i,
        {
            let id = ranked[i];
            let ghost before = resolvable(ranked@.take(i as int), count);
            proof {
                lemma_resolvable_step(ranked@, count, i as int);
            }
            match self.log.read_by_id(id) {
                Ok(metadata) => {
                    hits.push(SearchHit { rank: i, vector_id: id, metadata });
                },
                Err(StorageError::NotFound(_)) => {},
                Err(e) => {
                    proof {
                        let j = before.len() as int;
                        let places = resolvable(ranked@, count);
                        lemma_resolvable_prefix(ranked@, count, i as int + 1);
                        assert(before.push(i as int)[j] == i);
                        assert(places[j] == i);
                        assert forall|k: int| 0 <= k < j implies decoded_record(
                            lines[ranked@[#[trigger] places[k]] as int],
                        ) is Some by {
                            assert(before.push(i as int)[k] == before[k]);
                            assert(places[k] == before[k]);
                            let hit = hits@[k];
                            assert(hit.vector_id == ranked@[before[k]]);
                        }
                    }
                    return Err(StoreError::Storage(e));
                },
            }
            i = i + 1;
        }
        proof {
            assert(ranked@.take(i as int) == ranked@);
        }
        Ok(hits)
    }
}

} // verus!
