//! The embedding engine's verified core: the pure halves of `start`,
//! `index`, `embed_single` and `search`.
//!
//! The engine composes the dense model handle and the sparse encoder and
//! orchestrates writes and nearest-neighbour reads against the remote
//! vector store. Everything that computes — splitting items into texts,
//! re-aligning batched embeddings with their originating items, building
//! store points keyed by UUID, mapping store answers to caller-facing
//! results, and the collection bootstrap decisions — lives here and is
//! verified. The surrounding binary performs the network calls and the
//! model inference and hands their outcomes back as plain values.
//!
//! Dense vectors are carried as sequences of IEEE-754 bit patterns of
//! 32-bit floating-point numbers: the engine routes them between the
//! model runtime and the store without computing on them. Likewise a
//! result's score carries the bits of the store's similarity value.

use vstd::prelude::*;
use vstd::string::StringExecFns;

use crate::payload::Value;
use crate::payload::lookup;
use crate::payload::lookup_spec;
use crate::uuidfmt::lemma_uuid_chars_injective;
use crate::uuidfmt::uuid_chars;
use crate::uuidfmt::uuid_hyphenated;

verus! {

/// The dense model's fixed dimensionality: every dense vector has this
/// many entries, and the collection is created for this size.
pub const MODEL_DIMENSION: u64 = 384;

/// How many texts are sent to the model runtime per inference call.
pub const BATCH_SIZE: usize = 25;

/// How many results a search requests when the caller gives no limit.
pub const DEFAULT_SEARCH_LIMIT: u64 = 10;

/// One item to index: identity is the UUID (carried as its 128-bit
/// value), the text is what gets embedded, and the payload is persisted
/// alongside the vector verbatim.
pub struct Item {
    pub id: u128,
    pub text: String,
    pub payload: Vec<(String, Value)>,
}

/// One point as written to the store: the hyphenated UUID as store key,
/// the dense vector (bit patterns), and the item's payload.
pub struct Point {
    pub id: String,
    pub vector: Vec<u32>,
    pub payload: Vec<(String, Value)>,
}

/// One point as the store returns it from a nearest-neighbour query:
/// similarity score (bit pattern) and stored payload.
pub struct ScoredPoint {
    pub score_bits: u32,
    pub payload: Vec<(String, Value)>,
}

/// One caller-facing search result: the string under the payload's `id`
/// key — the caller's own identifier, not the store key — and the score.
pub struct SearchResult {
    pub id: String,
    pub score_bits: u32,
}

/// The engine's per-request failures.
#[derive(Debug)]
pub enum EngineError {
    /// The model runtime answered a single-text request with a number of
    /// vectors other than one.
    WrongEmbeddingCount,
}

/// Distance metric of the collection's dense vectors.
pub enum Distance {
    Cosine,
    Dot,
    Euclid,
}

/// Quantization of the stored dense vectors.
pub enum QuantizationKind {
    ScalarInt8,
    Disabled,
}

/// The declared vector configuration of the collection.
pub struct CollectionConfig {
    pub vector_size: u64,
    pub distance: Distance,
    pub quantization: QuantizationKind,
}

/// What a create-collection call at startup came to.
pub enum CreateOutcome {
    /// The collection was created.
    Created,
    /// The store reported that the collection already exists — a racing
    /// bootstrap got there first.
    AlreadyExisted,
    /// The create failed for any other reason.
    Failed,
}

/// Startup creates the collection exactly when it does not exist yet.
pub open spec fn create_needed(collection_exists: bool) -> bool {
    !collection_exists
}

/// Startup succeeds unless the create really failed: a collection that
/// already exists is success.
pub open spec fn start_ok_spec(outcome: CreateOutcome) -> bool {
    !(outcome is Failed)
}

/// An index call writes to the store exactly when it has items.
pub open spec fn write_needed(n_items: nat) -> bool {
    n_items > 0
}

/// The caller-facing results of a store answer, in the store's order:
/// one result per returned point whose payload holds a string under the
/// `id` key; points without such a field are silently dropped.
pub open spec fn results_spec(points: Seq<ScoredPoint>) -> Seq<SearchResult>
    decreases points.len(),
{
    if points.len() == 0 {
        Seq::empty()
    } else {
        let init = results_spec(points.drop_last());
        let p = points.last();
        match lookup_spec(p.payload@, "id"@) {
            Some(v) => match v {
                Value::Str(s) => init.push(SearchResult { id: s, score_bits: p.score_bits }),
                _ => init,
            },
            None => init,
        }
    }
}

/// A store answer never maps to more results than it has points.
pub proof fn lemma_results_len(points: Seq<ScoredPoint>)
    ensures
        results_spec(points).len() <= points.len(),
    decreases points.len(),
{
    if points.len() > 0 {
        lemma_results_len(points.drop_last());
    }
}

/// Two items are written under the same store key exactly when their
/// UUIDs are equal: the store's upsert lets a later write replace an
/// earlier one with the same UUID, and never touches any other item's
/// point.
pub proof fn lemma_same_uuid_same_key(a: Item, b: Item)
    ensures
        uuid_chars(a.id) == uuid_chars(b.id) <==> a.id == b.id,
{
    if uuid_chars(a.id) == uuid_chars(b.id) {
        lemma_uuid_chars_injective(a.id, b.id);
    }
}

/// Indexing an empty batch performs zero store writes.
pub proof fn lemma_empty_index_no_write()
    ensures
        !write_needed(0),
{
}

/// Collection bootstrap is idempotent: when the collection already
/// exists, startup creates nothing; and when a racing bootstrap created
/// it first, the "already exists" answer counts as success, not failure.
pub proof fn lemma_bootstrap_idempotent()
    ensures
        !create_needed(true),
        start_ok_spec(CreateOutcome::AlreadyExisted),
{
}

/// The engine's handle on the store: the collection name it serves. The
/// connection itself and the model runtime live with the caller.
pub struct Engine {
    pub collection: String,
}

impl Engine {
    /// An engine bound to the named collection.
    pub fn new(collection: String) -> (r: Engine)
        ensures
            r.collection@ == collection@,
    {
        Engine { collection }
    }

    /// The fixed vector configuration a fresh collection is created
    /// with: the model's dimensionality, cosine distance, scalar int8
    /// quantization.
    pub fn collection_config(&self) -> (r: CollectionConfig)
        ensures
            r.vector_size == MODEL_DIMENSION,
            r.distance is Cosine,
            r.quantization is ScalarInt8,
    {
        CollectionConfig {
            vector_size: MODEL_DIMENSION,
            distance: Distance::Cosine,
            quantization: QuantizationKind::ScalarInt8,
        }
    }

    /// Whether startup must create the collection, given whether the
    /// store reports it as existing.
    pub fn create_on_start(&self, collection_exists: bool) -> (r: bool)
        ensures
            r == create_needed(collection_exists),
    {
        !collection_exists
    }

    /// Whether startup succeeded, given what the create came to: only a
    /// real failure aborts the start.
    pub fn start_ok(&self, outcome: &CreateOutcome) -> (r: bool)
        ensures
            r == start_ok_spec(*outcome),
    {
        match outcome {
            CreateOutcome::Failed => false,
            _ => true,
        }
    }

    /// Whether an index call writes at all: an empty batch is a no-op
    /// that never reaches the store.
    pub fn index_writes(&self, n_items: usize) -> (r: bool)
        ensures
            r == write_needed(n_items as nat),
    {
        n_items > 0
    }

    /// The texts of a batch of items, in the batch's order, for one
    /// batched embedding call.
    pub fn index_texts(&self, items: &Vec<Item>) -> (r: Vec<String>)
        ensures
            r@.len() == items@.len(),
            forall|i: int| 0 <= i < items@.len() ==> (#[trigger] r@[i])@ == items@[i].text@,
    {
        let mut r: Vec<String> = Vec::with_capacity(items.len());
        let mut i: usize = 0;
        while i < items.len()
            invariant
                0 <= i <= items@.len(),
                r@.len() == i,
                forall|j: int| 0 <= j < i ==> (#[trigger] r@[j])@ == items@[j].text@,
            decreases items@.len() - i,
        {
            r.push(items[i].text.clone());
            i += 1;
        }
        r
    }

    /// Pairs each item with the embedding at its position — the batched
    /// embed preserves order, so vectors re-align with their originating
    /// item — and builds one store point per pair: keyed by the item's
    /// hyphenated UUID, carrying the payload verbatim.
    pub fn build_points(&self, items: Vec<Item>, embeddings: Vec<Vec<u32>>) -> (r: Vec<Point>)
        ensures
            r@.len() == if items@.len() < embeddings@.len() {
                items@.len()
            } else {
                embeddings@.len()
            },
            forall|i: int|
                0 <= i < r@.len() ==> (#[trigger] r@[i]).id@ == uuid_chars(items@[i].id)
                    && r@[i].vector == embeddings@[i] && r@[i].payload == items@[i].payload,
    {
        let ghost gitems = items@;
        let ghost gembs = embeddings@;
        let mut items = items;
        let mut embeddings = embeddings;
        let mut r: Vec<Point> = Vec::new();
        while items.len() > 0 && embeddings.len() > 0
            invariant
                r@.len() <= gitems.len(),
                r@.len() <= gembs.len(),
                items@ == gitems.skip(r@.len() as int),
                embeddings@ == gembs.skip(r@.len() as int),
                forall|i: int|
                    0 <= i < r@.len() ==> (#[trigger] r@[i]).id@ == uuid_chars(gitems[i].id)
                        && r@[i].vector == gembs[i] && r@[i].payload == gitems[i].payload,
            decreases items@.len(),
        {
            let ghost n = r@.len() as int;
            let item = items.remove(0);
            let vector = embeddings.remove(0);
            proof {
                assert(item == gitems[n]);
                assert(vector == gembs[n]);
                assert(gitems.skip(n).remove(0) =~= gitems.skip(n + 1));
                assert(gembs.skip(n).remove(0) =~= gembs.skip(n + 1));
            }
            let id = uuid_hyphenated(item.id);
            r.push(Point { id, vector, payload: item.payload });
        }
        proof {
            assert(items@.len() == gitems.len() - r@.len());
            assert(embeddings@.len() == gembs.len() - r@.len());
        }
        r
    }

    /// Whether a batched embedding answer is well-formed for `n_texts`
    /// inputs: one vector per text, in the inputs' order by contract of
    /// the model runtime, each of the model's dimensionality.
    pub fn batch_ok(&self, n_texts: usize, embeddings: &Vec<Vec<u32>>) -> (r: bool)
        ensures
            r == (embeddings@.len() == n_texts && (forall|i: int|
                0 <= i < embeddings@.len() ==> (#[trigger] embeddings@[i])@.len()
                    == MODEL_DIMENSION)),
    {
        if embeddings.len() != n_texts {
            return false;
        }
        let mut i: usize = 0;
        while i < embeddings.len()
            invariant
                0 <= i <= embeddings@.len(),
                forall|j: int|
                    0 <= j < i ==> (#[trigger] embeddings@[j])@.len() == MODEL_DIMENSION,
            decreases embeddings@.len() - i,
        {
            if embeddings[i].len() != 384 {
                return false;
            }
            i += 1;
        }
        true
    }

    /// The one vector answering a single-text embedding request. The
    /// model runtime owes exactly one vector for one text; any other
    /// count is a runtime defect and fails loudly.
    pub fn single_embedding(&self, embeddings: Vec<Vec<u32>>) -> (r: Result<
        Vec<u32>,
        EngineError,
    >)
        ensures
            r is Ok <==> embeddings@.len() == 1,
            r matches Ok(v) ==> v == embeddings@[0],
    {
        let mut embeddings = embeddings;
        if embeddings.len() == 1 {
            Ok(embeddings.remove(0))
        } else {
            Err(EngineError::WrongEmbeddingCount)
        }
    }

    /// The number of results a search requests from the store: the
    /// caller's limit, or the default when none is given.
    pub fn search_limit(&self, limit: Option<u64>) -> (r: u64)
        ensures
            match limit {
                Some(l) => r == l,
                None => r == DEFAULT_SEARCH_LIMIT,
            },
    {
        match limit {
            Some(l) => l,
            None => DEFAULT_SEARCH_LIMIT,
        }
    }

    /// Maps a store answer to caller-facing results, in the store's
    /// order: each point's caller identifier is the string under the
    /// payload's `id` key; a point whose payload lacks a string `id` is
    /// silently dropped rather than failing the whole query.
    pub fn search_results(&self, points: &Vec<ScoredPoint>) -> (r: Vec<SearchResult>)
        ensures
            r@ == results_spec(points@),
            r@.len() <= points@.len(),
    {
        let key = String::from_str("id");
        let mut r: Vec<SearchResult> = Vec::new();
        let mut i: usize = 0;
        while i < points.len()
            invariant
                0 <= i <= points@.len(),
                key@ == "id"@,
                r@ == results_spec(points@.take(i as int)),
                r@.len() <= i,
            decreases points@.len() - i,
        {
            proof {
                assert(points@.take(i + 1).drop_last() =~= points@.take(i as int));
                assert(points@.take(i + 1).last() == points@[i as int]);
            }
            match lookup(&points[i].payload, &key) {
                Some(v) => match v {
                    Value::Str(s) => {
                        r.push(SearchResult { id: s.clone(), score_bits: points[i].score_bits });
                    },
                    _ => {},
                },
                None => {},
            }
            i += 1;
        }
        proof {
            assert(points@.take(points@.len() as int) =~= points@);
        }
        r
    }
}

} // verus!
