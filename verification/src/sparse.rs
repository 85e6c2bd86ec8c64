//! Sparse encoder: deterministic bag-of-terms weighting for keyword-style
//! retrieval.
//!
//! The BM25-style per-term weights come from the `bm25` crate; what this
//! module owns and verifies is the deduplication step: the weighting emits
//! one `(term id, weight)` pair per token occurrence, so the same term id
//! can appear several times, and the final vector must carry each id once.
//! The collision policy is deterministic and documented: ids keep the order
//! of their first occurrence, and for each id the weight of its last
//! occurrence wins.
//!
//! Weights are carried as the IEEE-754 bit patterns of 32-bit
//! floating-point numbers: the encoder never computes on them, it only
//! routes them from the weighting to the caller.

use vstd::prelude::*;
use vstd::pervasive::VecAdditionalExecFns;

verus! {

/// A sparse weighted term vector: parallel sequences of term ids and
/// weight bit patterns, with no term id repeated.
pub struct SparseVector {
    /// Term ids, unique within one vector.
    pub indices: Vec<u32>,
    /// IEEE-754 bit patterns of the weights, one per term id.
    pub values: Vec<u32>,
}

/// Parameters of the BM25 weighting, as decimal text. The engine never
/// computes on them: they are parsed by the weighting itself, so they are
/// carried in the caller's textual form (`"1.2"`, `"0.75"`, `"256"`).
pub struct Bm25Params {
    /// Corpus average document length; required, supplied by the caller.
    pub avgdl: String,
    /// Document-length normalization strength.
    pub b: String,
    /// Term-frequency saturation point.
    pub k1: String,
}

impl SparseVector {
    /// Parallel lengths and unique term ids.
    pub open spec fn wf(self) -> bool {
        self.indices@.len() == self.values@.len() && self.indices@.no_duplicates()
    }

    /// An empty vector with room for `c` terms.
    pub fn with_capacity(c: usize) -> (r: SparseVector)
        ensures
            r.indices@.len() == 0,
            r.values@.len() == 0,
    {
        SparseVector { indices: Vec::with_capacity(c), values: Vec::with_capacity(c) }
    }

    /// Appends one `(term id, weight bits)` pair.
    pub fn push(&mut self, index: u32, value: u32)
        ensures
            final(self).indices@ == old(self).indices@.push(index),
            final(self).values@ == old(self).values@.push(value),
    {
        self.indices.push(index);
        self.values.push(value);
    }
}

/// Some pair of `terms` carries the term id `idx`.
pub open spec fn has_index(terms: Seq<(u32, u32)>, idx: u32) -> bool {
    exists|j: int| 0 <= j < terms.len() && (#[trigger] terms[j]).0 == idx
}

/// The weight of the last pair of `terms` with term id `idx`.
pub open spec fn last_weight(terms: Seq<(u32, u32)>, idx: u32) -> u32
    decreases terms.len(),
{
    if terms.len() == 0 {
        0
    } else if terms.last().0 == idx {
        terms.last().1
    } else {
        last_weight(terms.drop_last(), idx)
    }
}

/// The position of the first pair of `terms` with term id `idx`
/// (meaningful only when `has_index(terms, idx)`).
pub open spec fn first_pos(terms: Seq<(u32, u32)>, idx: u32) -> int
    decreases terms.len(),
{
    if terms.len() == 0 {
        0
    } else if terms[0].0 == idx {
        0
    } else {
        1 + first_pos(terms.drop_first(), idx)
    }
}

/// `sv` is the deduplication of `terms`: every term id of `terms` exactly
/// once, in the order of first occurrence, each carrying the weight of its
/// last occurrence.
pub open spec fn is_dedup_of(sv: SparseVector, terms: Seq<(u32, u32)>) -> bool {
    &&& sv.indices@.len() == sv.values@.len()
    &&& sv.indices@.no_duplicates()
    &&& forall|idx: u32| #[trigger] sv.indices@.contains(idx) <==> has_index(terms, idx)
    &&& forall|j: int|
        0 <= j < sv.indices@.len() ==> sv.values@[j] == last_weight(
            terms,
            #[trigger] sv.indices@[j],
        )
    &&& forall|j: int, k: int|
        #![trigger sv.indices@[j], sv.indices@[k]]
        0 <= j < k < sv.indices@.len() ==> first_pos(terms, sv.indices@[j]) < first_pos(
            terms,
            sv.indices@[k],
        )
}

proof fn lemma_has_index_push(terms: Seq<(u32, u32)>, t: (u32, u32), idx: u32)
    ensures
        has_index(terms.push(t), idx) <==> (t.0 == idx || has_index(terms, idx)),
{
    if has_index(terms, idx) {
        let j = choose|j: int| 0 <= j < terms.len() && (#[trigger] terms[j]).0 == idx;
        assert(terms.push(t)[j].0 == idx);
    }
    if t.0 == idx {
        assert(terms.push(t)[terms.len() as int].0 == idx);
    }
    if has_index(terms.push(t), idx) {
        let j = choose|j: int|
            0 <= j < terms.push(t).len() && (#[trigger] terms.push(t)[j]).0 == idx;
        if j < terms.len() {
            assert(terms[j].0 == idx);
        }
    }
}

proof fn lemma_last_weight_push(terms: Seq<(u32, u32)>, t: (u32, u32), idx: u32)
    ensures
        last_weight(terms.push(t), idx) == if t.0 == idx {
            t.1
        } else {
            last_weight(terms, idx)
        },
{
    assert(terms.push(t).last() == t);
    assert(terms.push(t).drop_last() =~= terms);
}

proof fn lemma_first_pos_push(terms: Seq<(u32, u32)>, t: (u32, u32), idx: u32)
    ensures
        has_index(terms, idx) ==> first_pos(terms.push(t), idx) == first_pos(terms, idx),
        !has_index(terms, idx) && t.0 == idx ==> first_pos(terms.push(t), idx)
            == terms.len(),
    decreases terms.len(),
{
    if terms.len() == 0 {
        assert(terms.push(t)[0] == t);
    } else {
        assert(terms.push(t)[0] == terms[0]);
        assert(terms.push(t).drop_first() =~= terms.drop_first().push(t));
        lemma_first_pos_push(terms.drop_first(), t, idx);
        if terms[0].0 != idx {
            if has_index(terms, idx) {
                let j = choose|j: int| 0 <= j < terms.len() && (#[trigger] terms[j]).0 == idx;
                assert(terms.drop_first()[j - 1].0 == idx);
            }
            if has_index(terms.drop_first(), idx) {
                let j = choose|j: int|
                    0 <= j < terms.drop_first().len() && (#[trigger] terms.drop_first()[j]).0
                        == idx;
                assert(terms[j + 1].0 == idx);
            }
        }
    }
}

proof fn lemma_first_pos_in_range(terms: Seq<(u32, u32)>, idx: u32)
    requires
        has_index(terms, idx),
    ensures
        0 <= first_pos(terms, idx) < terms.len(),
    decreases terms.len(),
{
    if terms.len() > 0 && terms[0].0 != idx {
        let j = choose|j: int| 0 <= j < terms.len() && (#[trigger] terms[j]).0 == idx;
        assert(terms.drop_first()[j - 1].0 == idx);
        lemma_first_pos_in_range(terms.drop_first(), idx);
    }
}

/// Collapses a sequence of `(term id, weight bits)` pairs into a sparse
/// vector with unique term ids: ids keep the order of their first
/// occurrence, and for each id the weight of its last occurrence wins.
pub fn dedup_terms(terms: &Vec<(u32, u32)>) -> (sv: SparseVector)
    ensures
        sv.wf(),
        is_dedup_of(sv, terms@),
{
    let mut sv = SparseVector::with_capacity(terms.len());
    let mut i: usize = 0;
    while i < terms.len()
        invariant
            0 <= i <= terms@.len(),
            sv.indices@.len() == sv.values@.len(),
            sv.indices@.no_duplicates(),
            forall|idx: u32| #[trigger]
                sv.indices@.contains(idx) <==> has_index(terms@.take(i as int), idx),
            forall|j: int|
                0 <= j < sv.indices@.len() ==> sv.values@[j] == last_weight(
                    terms@.take(i as int),
                    #[trigger] sv.indices@[j],
                ),
            forall|j: int, k: int|
                #![trigger sv.indices@[j], sv.indices@[k]]
                0 <= j < k < sv.indices@.len() ==> first_pos(terms@.take(i as int), sv.indices@[j])
                    < first_pos(terms@.take(i as int), sv.indices@[k]),
        decreases terms@.len() - i,
    {
        let t = terms[i];
        let ghost p = terms@.take(i as int);
        proof {
            assert(terms@.take(i + 1) =~= p.push(terms@[i as int]));
        }
        let mut j: usize = 0;
        let mut found = false;
        let mut hit: usize = 0;
        while j < sv.indices.len()
            invariant
                0 <= j <= sv.indices@.len(),
                sv.indices@.len() == sv.values@.len(),
                !found ==> forall|j2: int| 0 <= j2 < j ==> #[trigger] sv.indices@[j2] != t.0,
                found ==> hit < sv.indices@.len() && sv.indices@[hit as int] == t.0,
            decreases sv.indices@.len() - j,
        {
            if sv.indices[j] == t.0 {
                found = true;
                hit = j;
            }
            j += 1;
        }
        proof {
            lemma_has_index_push(p, t, t.0);
        }
        if found {
            proof {
                assert(sv.indices@[hit as int] == t.0);
                assert(sv.indices@.contains(t.0));
            }
            sv.values.set(hit, t.1);
            proof {
                assert forall|idx: u32| #[trigger]
                    sv.indices@.contains(idx) <==> has_index(p.push(t), idx) by {
                    lemma_has_index_push(p, t, idx);
                }
                assert forall|j2: int| 0 <= j2 < sv.indices@.len() implies sv.values@[j2]
                    == last_weight(p.push(t), #[trigger] sv.indices@[j2]) by {
                    lemma_last_weight_push(p, t, sv.indices@[j2]);
                    if j2 != hit as int {
                        assert(sv.indices@[j2] != t.0);
                    }
                }
                assert forall|j2: int, k2: int|
                    #![trigger sv.indices@[j2], sv.indices@[k2]]
                    0 <= j2 < k2 < sv.indices@.len() implies first_pos(p.push(t), sv.indices@[j2])
                    < first_pos(p.push(t), sv.indices@[k2]) by {
                    assert(sv.indices@.contains(sv.indices@[j2]));
                    assert(sv.indices@.contains(sv.indices@[k2]));
                    lemma_first_pos_push(p, t, sv.indices@[j2]);
                    lemma_first_pos_push(p, t, sv.indices@[k2]);
                }
            }
        } else {
            proof {
                assert(forall|j2: int|
                    0 <= j2 < sv.indices@.len() ==> #[trigger] sv.indices@[j2] != t.0);
                assert(!sv.indices@.contains(t.0));
                assert(!has_index(p, t.0));
            }
            let ghost old_sv = sv;
            sv.push(t.0, t.1);
            proof {
                assert(sv.indices@ == old_sv.indices@.push(t.0));
                assert forall|j2: int|
                    0 <= j2 < old_sv.indices@.len() implies #[trigger] sv.indices@[j2]
                    == old_sv.indices@[j2] by {}
                assert(sv.indices@.no_duplicates());
                assert forall|idx: u32| #[trigger]
                    sv.indices@.contains(idx) <==> has_index(p.push(t), idx) by {
                    lemma_has_index_push(p, t, idx);
                    assert(sv.indices@[old_sv.indices@.len() as int] == t.0);
                    if sv.indices@.contains(idx) {
                        let j2 = choose|j2: int|
                            0 <= j2 < sv.indices@.len() && sv.indices@[j2] == idx;
                        if j2 < old_sv.indices@.len() {
                            assert(old_sv.indices@.contains(idx));
                        }
                    }
                    if old_sv.indices@.contains(idx) {
                        let j2 = choose|j2: int|
                            0 <= j2 < old_sv.indices@.len() && old_sv.indices@[j2] == idx;
                        assert(sv.indices@[j2] == idx);
                    }
                }
                assert forall|j2: int| 0 <= j2 < sv.indices@.len() implies sv.values@[j2]
                    == last_weight(p.push(t), #[trigger] sv.indices@[j2]) by {
                    lemma_last_weight_push(p, t, sv.indices@[j2]);
                    if j2 < old_sv.indices@.len() {
                        assert(sv.indices@[j2] == old_sv.indices@[j2]);
                        assert(sv.indices@[j2] != t.0);
                    } else {
                        assert(sv.indices@[j2] == t.0);
                        assert(sv.values@[j2] == t.1);
                    }
                }
                assert forall|j2: int, k2: int|
                    #![trigger sv.indices@[j2], sv.indices@[k2]]
                    0 <= j2 < k2 < sv.indices@.len() implies first_pos(p.push(t), sv.indices@[j2])
                    < first_pos(p.push(t), sv.indices@[k2]) by {
                    lemma_first_pos_push(p, t, sv.indices@[j2]);
                    lemma_first_pos_push(p, t, sv.indices@[k2]);
                    if k2 < old_sv.indices@.len() {
                        assert(old_sv.indices@.contains(sv.indices@[j2]));
                        assert(old_sv.indices@.contains(sv.indices@[k2]));
                    } else {
                        assert(sv.indices@[k2] == t.0);
                        if j2 < old_sv.indices@.len() {
                            assert(old_sv.indices@.contains(sv.indices@[j2]));
                            lemma_first_pos_in_range(p, sv.indices@[j2]);
                        }
                    }
                }
            }
        }
        i += 1;
    }
    proof {
        assert(terms@.take(terms@.len() as int) =~= terms@);
    }
    sv
}

/// Whether the three BM25 parameters, written as decimal text, parse as
/// 32-bit floating-point numbers (the success of `str::parse` on each).
pub uninterp spec fn bm25_params_ok(avgdl: Seq<char>, b: Seq<char>, k1: Seq<char>) -> bool;

/// The weighted terms that the `bm25` crate's embedder, built with the
/// given parameters, computes for a text: one `(term id, weight bits)`
/// pair per token occurrence, a function of the parameters and the text
/// alone.
pub uninterp spec fn bm25_terms(
    avgdl: Seq<char>,
    b: Seq<char>,
    k1: Seq<char>,
    text: Seq<char>,
) -> Seq<(u32, u32)>;

/// Relies on the `bm25` crate: `EmbedderBuilder::with_avgdl(..).b(..).k1(..).build()`
/// constructs a deterministic embedder (the default tokenizer has no
/// process-wide state), and `Embedder::embed` maps a text to one weighted
/// term per token, depending on the parameters and the text alone; a text
/// with no tokens gives no terms. The parameters are parsed with
/// `str::parse`; if any of them does not parse, no embedder exists and
/// the call reports that instead of a vector.
#[verifier::external_body]
fn bm25_embed_terms(text: &str, params: &Bm25Params) -> (r: Option<Vec<(u32, u32)>>)
    ensures
        r is Some <==> bm25_params_ok(params.avgdl@, params.b@, params.k1@),
        r matches Some(v) ==> v@ == bm25_terms(params.avgdl@, params.b@, params.k1@, text@),
        r matches Some(v) ==> (text@.len() == 0 ==> v@.len() == 0),
{
    let (Ok(avgdl), Ok(b), Ok(k1)) = (params.avgdl.parse(), params.b.parse(), params.k1.parse())
    else {
        return None;
    };
    let embedder = bm25::EmbedderBuilder::<u32>::with_avgdl(avgdl).b(b).k1(k1).build();
    let terms = embedder.embed(text).0;
    Some(terms.into_iter().map(|t| (t.index, t.value.to_bits())).collect())
}

/// Sparse-encodes a text: BM25-style weighting of its tokens, collapsed
/// to one weight per term id (first-occurrence order, last weight wins).
/// Returns a vector exactly when the parameters parse; a text with no
/// tokens — the empty text among them — gives an empty vector, not an
/// error.
pub fn sparse_encode(text: &str, params: &Bm25Params) -> (r: Option<SparseVector>)
    ensures
        r is Some <==> bm25_params_ok(params.avgdl@, params.b@, params.k1@),
        r matches Some(sv) ==> sv.wf() && is_dedup_of(
            sv,
            bm25_terms(params.avgdl@, params.b@, params.k1@, text@),
        ),
        r matches Some(sv) ==> (text@.len() == 0 ==> sv.indices@.len() == 0
            && sv.values@.len() == 0),
{
    match bm25_embed_terms(text, params) {
        Some(terms) => {
            let sv = dedup_terms(&terms);
            proof {
                if text@.len() == 0 && sv.indices@.len() > 0 {
                    assert(sv.indices@.contains(sv.indices@[0]));
                }
            }
            Some(sv)
        },
        None => None,
    }
}

} // verus!
