use embed_engine::sparse::dedup_terms;
use embed_engine::sparse::sparse_encode;
use embed_engine::Bm25Params;

fn params(avgdl: &str, b: &str, k1: &str) -> Bm25Params {
    Bm25Params { avgdl: avgdl.to_string(), b: b.to_string(), k1: k1.to_string() }
}

#[test]
fn dedup_last_value_wins_first_occurrence_order() {
    let terms: Vec<(u32, u32)> = vec![(5, 10), (7, 20), (5, 30), (9, 40), (7, 50)];
    let sv = dedup_terms(&terms);
    assert_eq!(sv.indices, vec![5, 7, 9]);
    assert_eq!(sv.values, vec![30, 50, 40]);
}

#[test]
fn dedup_of_empty_is_empty() {
    let sv = dedup_terms(&Vec::new());
    assert!(sv.indices.is_empty());
    assert!(sv.values.is_empty());
}

#[test]
fn sparse_indices_unique() {
    let text = "the quick brown fox jumps over the lazy dog dog dog";
    let sv = sparse_encode(text, &params("5", "0.75", "1.2")).unwrap();
    assert_eq!(sv.indices.len(), sv.values.len());
    for i in 0..sv.indices.len() {
        for j in 0..i {
            assert_ne!(sv.indices[i], sv.indices[j], "duplicate term id");
        }
    }
    assert!(!sv.indices.is_empty());
}

#[test]
fn sparse_empty_text_gives_empty_vector() {
    let sv = sparse_encode("", &params("5", "0.75", "1.2")).unwrap();
    assert!(sv.indices.is_empty());
    assert!(sv.values.is_empty());
}

#[test]
fn sparse_bad_params_rejected() {
    assert!(sparse_encode("hello", &params("abc", "0.75", "1.2")).is_none());
    assert!(sparse_encode("hello", &params("5", "", "1.2")).is_none());
    assert!(sparse_encode("hello", &params("5", "0.75", "one")).is_none());
}

#[test]
fn sparse_matches_direct_weighting() {
    // The same weighting computed directly, deduplicated by hand with the
    // documented policy: first-occurrence order, last value wins.
    let text = "dog dog cat runs";
    let embedder = bm25::EmbedderBuilder::<u32>::with_avgdl(5.0)
        .b(0.75)
        .k1(1.2)
        .build();
    let raw = embedder.embed(text).0;
    assert!(raw.len() >= 2);
    let mut expected_indices: Vec<u32> = Vec::new();
    let mut expected_values: Vec<u32> = Vec::new();
    for t in &raw {
        match expected_indices.iter().position(|&i| i == t.index) {
            Some(p) => expected_values[p] = t.value.to_bits(),
            None => {
                expected_indices.push(t.index);
                expected_values.push(t.value.to_bits());
            }
        }
    }
    let sv = sparse_encode(text, &params("5", "0.75", "1.2")).unwrap();
    assert_eq!(sv.indices, expected_indices);
    assert_eq!(sv.values, expected_values);
    // The raw weighting repeats the id of "dog"; the encoder must not.
    assert!(sv.indices.len() < raw.len());
}
