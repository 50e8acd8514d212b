use review_store::index::{IndexError, IndexHeader, IndexKind, VectorIndexHandle};
use review_store::storage::jsonl::{JsonlStorage, ReviewMetadata, StorageError};
use review_store::store::{Phase, RecordStore, SearchHit, StoreError};

const DIMENSION: usize = 16;

/// A stand-in for the embedding model: counts of letters, folded into
/// sixteen buckets and scaled to length one.
fn embed(text: &str) -> Vec<f32> {
    let mut buckets = vec![0.0f32; DIMENSION];
    for byte in text.to_lowercase().bytes() {
        buckets[(byte as usize) % DIMENSION] += 1.0;
    }
    let norm = buckets.iter().map(|x| x * x).sum::<f32>().sqrt();
    if norm > 0.0 {
        for x in buckets.iter_mut() {
            *x /= norm;
        }
    }
    buckets
}

/// A stand-in for the engine: every vector is compared with the query.
struct FlatEngine {
    dimension: usize,
    vectors: Vec<(usize, Vec<f32>)>,
}

impl FlatEngine {
    fn new(dimension: usize) -> Self {
        FlatEngine { dimension, vectors: Vec::new() }
    }

    fn add(&mut self, id: usize, vector: &[f32]) -> bool {
        if vector.len() != self.dimension || self.vectors.iter().any(|(held, _)| *held == id) {
            return false;
        }
        self.vectors.push((id, vector.to_vec()));
        true
    }

    /// Identifiers and similarity scores, closest first.
    fn search(&self, query: &[f32], top_k: usize) -> Vec<(usize, f32)> {
        let mut scored: Vec<(usize, f32)> = self
            .vectors
            .iter()
            .map(|(id, v)| (*id, v.iter().zip(query.iter()).map(|(a, b)| a * b).sum::<f32>()))
            .collect();
        scored.sort_by(|a, b| b.1.partial_cmp(&a.1).unwrap().then(a.0.cmp(&b.0)));
        scored.truncate(top_k);
        scored
    }

    fn ids(&self) -> Vec<usize> {
        self.vectors.iter().map(|(id, _)| *id).collect()
    }
}

fn empty_store() -> RecordStore {
    RecordStore::open(
        JsonlStorage::new("reviews.jsonl"),
        VectorIndexHandle::new(DIMENSION, IndexKind::Bkt),
    )
    .unwrap()
}

fn add(
    store: &mut RecordStore,
    engine: &mut FlatEngine,
    title: &str,
    body: &str,
    product: &str,
    rating: u8,
) -> Result<usize, StoreError> {
    let text = RecordStore::prepare_add(title, body, product, rating)?;
    let vector = embed(&text);
    let id = store.stage_add(title, body, product, rating)?;
    let accepted = engine.add(id, &vector);
    store.complete_add(vector.len(), accepted)
}

fn search(
    store: &RecordStore,
    engine: &FlatEngine,
    query: &str,
    top_k: usize,
) -> Result<Vec<(SearchHit, f32)>, StoreError> {
    RecordStore::prepare_search(query, top_k)?;
    let ranked = engine.search(&embed(query), top_k);
    let ids: Vec<usize> = ranked.iter().map(|(id, _)| *id).collect();
    let hits = store.hydrate(&ids)?;
    Ok(hits
        .into_iter()
        .map(|hit| {
            let score = ranked[hit.rank].1;
            (hit, score)
        })
        .collect())
}

fn review(title: &str, body: &str, product: &str, rating: u8) -> ReviewMetadata {
    ReviewMetadata {
        review_title: title.to_string(),
        review_body: body.to_string(),
        product_id: product.to_string(),
        review_rating: rating,
    }
}

#[test]
fn add_twice_then_search_finds_the_first() {
    let mut store = empty_store();
    let mut engine = FlatEngine::new(DIMENSION);
    assert_eq!(add(&mut store, &mut engine, "Great product", "Very satisfied", "P123", 5), Ok(0));
    assert_eq!(add(&mut store, &mut engine, "Broke at once", "Returned it", "P456", 1), Ok(1));

    let top = search(&store, &engine, "Great product Very satisfied", 1).unwrap();
    assert_eq!(top.len(), 1);
    assert_eq!(top[0].0.vector_id, 0);
    assert_eq!(top[0].0.rank, 0);
    assert_eq!(top[0].0.metadata, review("Great product", "Very satisfied", "P123", 5));

    let both = search(&store, &engine, "Great product Very satisfied", 2).unwrap();
    assert_eq!(both.len(), 2);
    assert_eq!(both[0].0.vector_id, 0);
    assert_eq!(both[1].0.vector_id, 1);
    assert!(both[0].1 >= both[1].1);
}

#[test]
fn identifiers_are_dense_and_in_call_order() {
    let mut store = empty_store();
    let mut engine = FlatEngine::new(DIMENSION);
    let mut returned: Vec<usize> = Vec::new();
    let mut n: usize = 0;
    while n < 25 {
        let title = format!("title {}", n);
        returned.push(add(&mut store, &mut engine, &title, "body", "P", 3).unwrap());
        n += 1;
    }
    let expected: Vec<usize> = (0..25).collect();
    assert_eq!(returned, expected);
    assert_eq!(store.count(), 25);
    assert_eq!(store.index().count(), 25);
}

#[test]
fn counts_agree_after_every_add() {
    let mut store = empty_store();
    let mut engine = FlatEngine::new(DIMENSION);
    assert_eq!(store.log().count_lines(), store.index().count());
    let mut n: usize = 0;
    while n < 10 {
        add(&mut store, &mut engine, "t", "b", "p", 1 + (n % 5) as u8).unwrap();
        assert_eq!(store.phase(), Phase::Ready);
        assert_eq!(store.log().count_lines(), n + 1);
        assert_eq!(store.index().count(), n + 1);
        assert_eq!(engine.ids().len(), n + 1);
        assert!(store.index().contains(n));
        n += 1;
    }
}

#[test]
fn a_record_is_its_own_nearest_neighbour() {
    let mut store = empty_store();
    let mut engine = FlatEngine::new(DIMENSION);
    add(&mut store, &mut engine, "Sturdy tent", "Kept us dry in a storm", "T1", 5).unwrap();
    add(&mut store, &mut engine, "Weak zipper", "Broke on day two", "T2", 2).unwrap();
    let id = add(&mut store, &mut engine, "Quiet fan", "Barely audible at night", "F9", 4).unwrap();
    let found = search(&store, &engine, "Quiet fan Barely audible at night", 3).unwrap();
    assert_eq!(found[0].0.vector_id, id);
    assert!(found[0].1 >= found[1].1 && found[1].1 >= found[2].1);
}

#[test]
fn an_invalid_add_changes_nothing() {
    let mut store = empty_store();
    let mut engine = FlatEngine::new(DIMENSION);
    add(&mut store, &mut engine, "a", "b", "c", 3).unwrap();

    let title = Err(StoreError::Validation("Review title cannot be empty".to_string()));
    let body = Err(StoreError::Validation("Review body cannot be empty".to_string()));
    let product = Err(StoreError::Validation("Product ID cannot be empty".to_string()));
    let rating = Err(StoreError::Validation("Review rating must be between 1 and 5".to_string()));
    assert_eq!(add(&mut store, &mut engine, "", "b", "c", 3), title);
    assert_eq!(add(&mut store, &mut engine, "a", "", "c", 3), body);
    assert_eq!(add(&mut store, &mut engine, "a", "b", "", 3), product);
    assert_eq!(add(&mut store, &mut engine, "a", "b", "c", 0), rating);
    assert_eq!(add(&mut store, &mut engine, "a", "b", "c", 6), rating);
    assert_eq!(store.stage_add("", "b", "c", 3), title);
    assert_eq!(store.stage_add("a", "b", "c", 6), rating);

    assert_eq!(store.phase(), Phase::Ready);
    assert_eq!(store.count(), 1);
    assert_eq!(store.index().count(), 1);
    assert_eq!(add(&mut store, &mut engine, "next", "b", "c", 3), Ok(1));
}

#[test]
fn an_invalid_search_is_refused() {
    let store = empty_store();
    let engine = FlatEngine::new(DIMENSION);
    let top_k = Err(StoreError::Validation("top_k must be between 1 and 100".to_string()));
    assert_eq!(search(&store, &engine, "query", 0), top_k);
    assert_eq!(search(&store, &engine, "query", 101), top_k);
    assert_eq!(
        search(&store, &engine, "  ", 10),
        Err(StoreError::Validation("Query cannot be empty".to_string()))
    );
    assert_eq!(search(&store, &engine, "query", 1), Ok(vec![]));
    assert_eq!(search(&store, &engine, "query", 100), Ok(vec![]));
}

#[test]
fn prepare_add_gives_the_text_to_embed() {
    assert_eq!(
        RecordStore::prepare_add("Great product", "Very satisfied", "P123", 5),
        Ok("Great product Very satisfied".to_string())
    );
}

#[test]
fn a_crash_between_log_and_index_is_replayed_on_open() {
    let mut store = empty_store();
    let mut engine = FlatEngine::new(DIMENSION);
    add(&mut store, &mut engine, "first", "kept", "A", 4).unwrap();

    // the log takes the record, and the process ends before the index does
    assert_eq!(store.stage_add("second", "orphaned", "B", 2), Ok(1));
    assert_eq!(store.phase(), Phase::Staged(1));
    let (log, index) = store.into_parts();
    assert_eq!(log.count_lines(), 2);
    assert_eq!(index.count(), 1);

    let mut store = RecordStore::open(log, index).unwrap();
    assert_eq!(store.phase(), Phase::Staged(1));
    let (id, text) = store.pending_text().unwrap().unwrap();
    assert_eq!(id, 1);
    assert_eq!(text, "second orphaned");
    // nothing else is accepted before the replay
    assert_eq!(store.stage_add("third", "x", "C", 3), Err(StoreError::RecoveryPending(1)));

    let vector = embed(&text);
    let accepted = engine.add(id, &vector);
    assert_eq!(store.complete_add(vector.len(), accepted), Ok(1));
    assert_eq!(store.phase(), Phase::Ready);
    assert_eq!(store.pending_text(), Ok(None));
    assert_eq!(store.count(), 2);
    assert_eq!(store.index().count(), 2);

    let found = search(&store, &engine, "second orphaned", 1).unwrap();
    assert_eq!(found[0].0.vector_id, 1);
    assert_eq!(found[0].0.metadata, review("second", "orphaned", "B", 2));
    assert_eq!(add(&mut store, &mut engine, "third", "x", "C", 3), Ok(2));
}

#[test]
fn a_vector_that_the_engine_refuses_leaves_the_log_ahead() {
    let mut store = empty_store();
    assert_eq!(store.stage_add("a", "b", "c", 3), Ok(0));
    assert_eq!(
        store.complete_add(DIMENSION, false),
        Err(StoreError::Index(IndexError::Rejected))
    );
    assert_eq!(store.phase(), Phase::Diverged(0));
    assert_eq!(store.count(), 1);
    assert_eq!(store.index().count(), 0);
    // no retry in this process
    assert_eq!(store.stage_add("d", "e", "f", 3), Err(StoreError::RecoveryPending(0)));
    assert_eq!(store.complete_add(DIMENSION, true), Err(StoreError::RecoveryPending(0)));
    assert_eq!(store.pending_text(), Ok(None));
    assert_eq!(store.count(), 1);

    // the next start replays it
    let (log, index) = store.into_parts();
    let mut store = RecordStore::open(log, index).unwrap();
    assert_eq!(store.pending_text(), Ok(Some((0, "a b".to_string()))));
    assert_eq!(store.complete_add(DIMENSION, true), Ok(0));
    assert_eq!(store.phase(), Phase::Ready);
}

#[test]
fn a_vector_of_the_wrong_length_is_refused() {
    let mut store = empty_store();
    assert_eq!(store.stage_add("a", "b", "c", 3), Ok(0));
    let mismatch = IndexError::DimensionMismatch { expected: DIMENSION, found: 3 };
    assert_eq!(store.complete_add(3, true), Err(StoreError::Index(mismatch)));
    assert_eq!(store.phase(), Phase::Diverged(0));
    assert_eq!(store.index().count(), 0);

    let mut other = empty_store();
    assert_eq!(other.stage_add("a", "b", "c", 3), Ok(0));
    assert_eq!(other.complete_add(3, false), Err(StoreError::Index(mismatch)));
}

#[test]
fn complete_add_needs_a_staged_record() {
    let mut store = empty_store();
    assert_eq!(store.complete_add(DIMENSION, true), Err(StoreError::NothingStaged));
    assert_eq!(store.phase(), Phase::Ready);
    assert_eq!(store.index().count(), 0);
}

#[test]
fn open_creates_a_missing_log() {
    let store = empty_store();
    assert!(store.log().is_present());
    assert_eq!(store.count(), 0);
    assert_eq!(store.phase(), Phase::Ready);
    assert_eq!(store.log().path(), "reviews.jsonl");
}

fn lines(n: usize) -> Vec<String> {
    (0..n)
        .map(|i| review(&format!("t{}", i), "b", "p", 3).to_line().unwrap())
        .collect()
}

fn loaded(ids: &[usize]) -> VectorIndexHandle {
    let header = Some(IndexHeader { dimension: DIMENSION, kind: IndexKind::Bkt });
    VectorIndexHandle::load(DIMENSION, IndexKind::Bkt, header, ids).unwrap()
}

#[test]
fn open_accepts_equal_counts() {
    let store =
        RecordStore::open(JsonlStorage::open("r.jsonl", Some(lines(3))), loaded(&[0, 1, 2]))
            .unwrap();
    assert_eq!(store.phase(), Phase::Ready);
    assert_eq!(store.count(), 3);
}

#[test]
fn open_refuses_an_index_ahead_of_the_log() {
    let opened = RecordStore::open(JsonlStorage::open("r.jsonl", Some(lines(2))), loaded(&[0, 1, 2]));
    assert_eq!(opened.err(), Some(StoreError::Corruption { log_count: 2, index_count: 3 }));
    let absent = RecordStore::open(JsonlStorage::new("r.jsonl"), loaded(&[0]));
    assert_eq!(absent.err(), Some(StoreError::Corruption { log_count: 0, index_count: 1 }));
}

#[test]
fn open_refuses_a_log_ahead_by_more_than_one() {
    let opened = RecordStore::open(JsonlStorage::open("r.jsonl", Some(lines(5))), loaded(&[0, 1, 2]));
    assert_eq!(opened.err(), Some(StoreError::Corruption { log_count: 5, index_count: 3 }));
}

#[test]
fn open_refuses_identifiers_with_a_gap() {
    let opened = RecordStore::open(JsonlStorage::open("r.jsonl", Some(lines(3))), loaded(&[0, 1, 3]));
    assert_eq!(opened.err(), Some(StoreError::Corruption { log_count: 3, index_count: 3 }));
    let ahead = RecordStore::open(JsonlStorage::open("r.jsonl", Some(lines(3))), loaded(&[0, 5]));
    assert_eq!(ahead.err(), Some(StoreError::Corruption { log_count: 3, index_count: 2 }));
}

#[test]
fn hydrate_keeps_rank_order_and_drops_unknown_ids() {
    let store =
        RecordStore::open(JsonlStorage::open("r.jsonl", Some(lines(3))), loaded(&[0, 1, 2]))
            .unwrap();
    let hits = store.hydrate(&[2, 9, 0, 3, 1]).unwrap();
    assert_eq!(
        hits,
        vec![
            SearchHit { rank: 0, vector_id: 2, metadata: review("t2", "b", "p", 3) },
            SearchHit { rank: 2, vector_id: 0, metadata: review("t0", "b", "p", 3) },
            SearchHit { rank: 4, vector_id: 1, metadata: review("t1", "b", "p", 3) },
        ]
    );
    assert_eq!(store.hydrate(&[]), Ok(vec![]));
    assert_eq!(store.hydrate(&[7, 8]), Ok(vec![]));
}

#[test]
fn hydrate_fails_on_a_line_that_is_no_record() {
    let mut found = lines(3);
    found[1] = "{\"review_title\":\"only\"}".to_string();
    let store =
        RecordStore::open(JsonlStorage::open("r.jsonl", Some(found)), loaded(&[0, 1, 2])).unwrap();
    assert_eq!(store.hydrate(&[0, 2]).map(|hits| hits.len()), Ok(2));
    assert_eq!(
        store.hydrate(&[0, 1, 2]),
        Err(StoreError::Storage(StorageError::Malformed(1)))
    );
}

#[test]
fn pending_text_fails_on_a_line_that_is_no_record() {
    let mut found = lines(2);
    found[1] = "garbage".to_string();
    let store =
        RecordStore::open(JsonlStorage::open("r.jsonl", Some(found)), loaded(&[0])).unwrap();
    assert_eq!(store.phase(), Phase::Staged(1));
    assert_eq!(
        store.pending_text(),
        Err(StoreError::Storage(StorageError::Malformed(1)))
    );
}
