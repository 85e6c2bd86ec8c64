//! Caller-supplied structured metadata attached to each stored point.
//!
//! Payloads are loosely typed: callers control their shape, so the value
//! type is a tagged union (null, bool, integer, double, string, list,
//! nested mapping). A payload itself is an ordered mapping from string
//! keys to values; lookup returns the value of the first pair with the
//! requested key.

use vstd::prelude::*;

verus! {

/// One value of a point's payload. `Double` carries the IEEE-754 bit
/// pattern of a 64-bit floating-point number: the engine never computes
/// on payload numbers, it only carries them between the caller and the
/// store, so the bits are all it needs.
pub enum Value {
    Null,
    Bool(bool),
    Int(i64),
    Double(u64),
    Str(String),
    List(Vec<Value>),
    Object(Vec<(String, Value)>),
}

/// The value bound to `key` in the ordered mapping `pairs`: the value of
/// the first pair whose key matches, if any.
pub open spec fn lookup_spec(pairs: Seq<(String, Value)>, key: Seq<char>) -> Option<Value>
    decreases pairs.len(),
{
    if pairs.len() == 0 {
        None
    } else if pairs[0].0@ == key {
        Some(pairs[0].1)
    } else {
        lookup_spec(pairs.drop_first(), key)
    }
}

/// Skipping a pair whose key does not match leaves the lookup unchanged.
proof fn lemma_lookup_skip(pairs: Seq<(String, Value)>, key: Seq<char>, j: int)
    requires
        0 <= j <= pairs.len(),
        forall|j2: int| 0 <= j2 < j ==> #[trigger] pairs[j2].0@ != key,
    ensures
        lookup_spec(pairs, key) == lookup_spec(pairs.skip(j), key),
    decreases j,
{
    if j > 0 {
        assert(pairs[0].0@ != key);
        assert forall|j2: int| 0 <= j2 < j - 1 implies #[trigger] pairs.drop_first()[j2].0@
            != key by {
            assert(pairs.drop_first()[j2] == pairs[j2 + 1]);
        }
        lemma_lookup_skip(pairs.drop_first(), key, j - 1);
        assert(pairs.drop_first().skip(j - 1) =~= pairs.skip(j));
    } else {
        assert(pairs.skip(0) =~= pairs);
    }
}

/// First-match lookup over an ordered payload mapping.
pub fn lookup<'a>(pairs: &'a Vec<(String, Value)>, key: &String) -> (r: Option<&'a Value>)
    ensures
        match r {
            Some(v) => lookup_spec(pairs@, key@) == Some(*v),
            None => lookup_spec(pairs@, key@) is None,
        },
{
    let mut j: usize = 0;
    while j < pairs.len()
        invariant
            0 <= j <= pairs@.len(),
            forall|j2: int| 0 <= j2 < j ==> #[trigger] pairs@[j2].0@ != key@,
        decreases pairs@.len() - j,
    {
        if pairs[j].0.eq(key) {
            proof {
                lemma_lookup_skip(pairs@, key@, j as int);
                assert(pairs@.skip(j as int)[0] == pairs@[j as int]);
            }
            return Some(&pairs[j].1);
        }
        j += 1;
    }
    proof {
        lemma_lookup_skip(pairs@, key@, pairs@.len() as int);
        assert(pairs@.skip(pairs@.len() as int) =~= Seq::<(String, Value)>::empty());
    }
    None
}

} // verus!
