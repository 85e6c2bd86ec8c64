use embed_engine::engine::CreateOutcome;
use embed_engine::uuidfmt::uuid_hyphenated;
use embed_engine::Engine;
use embed_engine::Item;
use embed_engine::ScoredPoint;
use embed_engine::Value;

fn engine() -> Engine {
    Engine::new("items".to_string())
}

fn item(id: u128, text: &str, payload_id: &str) -> Item {
    Item {
        id,
        text: text.to_string(),
        payload: vec![("id".to_string(), Value::Str(payload_id.to_string()))],
    }
}

fn scored(score: f32, pairs: Vec<(String, Value)>) -> ScoredPoint {
    ScoredPoint { score_bits: score.to_bits(), payload: pairs }
}

#[test]
fn collection_config_is_fixed() {
    let c = engine().collection_config();
    assert_eq!(c.vector_size, 384);
    assert!(matches!(c.distance, embed_engine::engine::Distance::Cosine));
    assert!(matches!(c.quantization, embed_engine::engine::QuantizationKind::ScalarInt8));
}

#[test]
fn bootstrap_skips_existing_collection() {
    let e = engine();
    assert!(e.create_on_start(false));
    assert!(!e.create_on_start(true));
}

#[test]
fn bootstrap_tolerates_already_exists() {
    let e = engine();
    assert!(e.start_ok(&CreateOutcome::Created));
    assert!(e.start_ok(&CreateOutcome::AlreadyExisted));
    assert!(!e.start_ok(&CreateOutcome::Failed));
}

#[test]
fn empty_index_writes_nothing() {
    let e = engine();
    assert!(!e.index_writes(0));
    assert!(e.index_writes(1));
    let points = e.build_points(Vec::new(), Vec::new());
    assert!(points.is_empty());
}

#[test]
fn index_texts_keeps_order() {
    let e = engine();
    let items = vec![item(1, "first", "a"), item(2, "second", "b")];
    let texts = e.index_texts(&items);
    assert_eq!(texts, vec!["first".to_string(), "second".to_string()]);
}

#[test]
fn build_points_aligns_by_position() {
    let e = engine();
    let items = vec![item(1, "first", "a"), item(2, "second", "b")];
    let embeddings = vec![vec![1u32; 384], vec![2u32; 384]];
    let points = e.build_points(items, embeddings);
    assert_eq!(points.len(), 2);
    assert_eq!(points[0].id, uuid_hyphenated(1));
    assert_eq!(points[1].id, uuid_hyphenated(2));
    assert_eq!(points[0].vector, vec![1u32; 384]);
    assert_eq!(points[1].vector, vec![2u32; 384]);
    match &points[1].payload[0].1 {
        Value::Str(s) => assert_eq!(s, "b"),
        _ => panic!("payload not carried verbatim"),
    }
}

#[test]
fn same_uuid_gives_same_store_key() {
    // Upsert semantics rest on the store key: two items with one UUID
    // are written under one key, so the second write replaces the first.
    let e = engine();
    let first = e.build_points(vec![item(42, "one", "a")], vec![vec![0u32; 384]]);
    let second = e.build_points(vec![item(42, "two", "b")], vec![vec![9u32; 384]]);
    assert_eq!(first[0].id, second[0].id);
    // A different UUID never lands on another item's key.
    let third = e.build_points(vec![item(43, "three", "c")], vec![vec![0u32; 384]]);
    assert_ne!(first[0].id, third[0].id);
}

#[test]
fn batch_ok_checks_count_and_dimension() {
    let e = engine();
    assert!(e.batch_ok(2, &vec![vec![0u32; 384], vec![1u32; 384]]));
    assert!(!e.batch_ok(1, &vec![vec![0u32; 384], vec![1u32; 384]]));
    assert!(!e.batch_ok(2, &vec![vec![0u32; 384], vec![1u32; 383]]));
    assert!(e.batch_ok(0, &Vec::new()));
}

#[test]
fn single_embedding_wants_exactly_one() {
    let e = engine();
    let v = e.single_embedding(vec![vec![7u32; 384]]).unwrap();
    assert_eq!(v, vec![7u32; 384]);
    assert!(e.single_embedding(Vec::new()).is_err());
    assert!(e.single_embedding(vec![vec![1u32; 384], vec![2u32; 384]]).is_err());
}

#[test]
fn search_limit_defaults_to_ten() {
    let e = engine();
    assert_eq!(e.search_limit(None), 10);
    assert_eq!(e.search_limit(Some(5)), 5);
}

#[test]
fn search_results_keep_store_order_and_drop_malformed() {
    let e = engine();
    let points = vec![
        scored(0.9, vec![("id".to_string(), Value::Str("a".to_string()))]),
        scored(0.8, vec![("other".to_string(), Value::Str("x".to_string()))]),
        scored(0.7, vec![("id".to_string(), Value::Int(3))]),
        scored(0.6, vec![("id".to_string(), Value::Str("d".to_string()))]),
        scored(0.5, vec![("id".to_string(), Value::Str("e".to_string()))]),
    ];
    let results = e.search_results(&points);
    assert_eq!(results.len(), 3);
    assert_eq!(results[0].id, "a");
    assert_eq!(results[1].id, "d");
    assert_eq!(results[2].id, "e");
    // The store's order (non-increasing score) is preserved.
    let scores: Vec<f32> = results.iter().map(|r| f32::from_bits(r.score_bits)).collect();
    assert!(scores.windows(2).all(|w| w[0] >= w[1]));
    assert!(results.len() <= points.len());
}

#[test]
fn search_never_exceeds_store_answer() {
    let e = engine();
    let points: Vec<ScoredPoint> = (0..5)
        .map(|i| {
            scored(
                1.0 - 0.1 * i as f32,
                vec![("id".to_string(), Value::Str(format!("doc-{i}")))],
            )
        })
        .collect();
    // With limit 5 the store returns at most 5 points; the mapping adds none.
    let results = e.search_results(&points);
    assert!(results.len() <= 5);
}

#[test]
fn hello_world_round_trip() {
    // Indexing an item with text "hello world" and payload {id: "doc-1"},
    // then mapping a store answer for the query "hello", yields that id
    // with a cosine-range score.
    let e = engine();
    let items = vec![item(0x1234_5678_9abc_def0, "hello world", "doc-1")];
    let texts = e.index_texts(&items);
    assert_eq!(texts, vec!["hello world".to_string()]);
    let embeddings = vec![vec![0x3f00_0000u32; 384]];
    assert!(e.batch_ok(texts.len(), &embeddings));
    let points = e.build_points(items, embeddings);
    assert_eq!(points.len(), 1);
    assert_eq!(points[0].id, uuid_hyphenated(0x1234_5678_9abc_def0));
    let answer = vec![scored(0.73, vec![("id".to_string(), Value::Str("doc-1".to_string()))])];
    let results = e.search_results(&answer);
    assert_eq!(results.len(), 1);
    assert_eq!(results[0].id, "doc-1");
    let score = f32::from_bits(results[0].score_bits);
    assert!((-1.0..=1.0).contains(&score));
}
