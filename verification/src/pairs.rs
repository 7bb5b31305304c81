//! Lists of keys with their values.

use vstd::prelude::*;

use crate::text::same_text;

verus! {

/// A key and its value by their characters.
pub type Pair = (Seq<char>, Seq<char>);

/// The characters of keys and values.
pub open spec fn pair_views(pairs: Seq<(String, String)>) -> Seq<Pair> {
    pairs.map_values(|pair: (String, String)| (pair.0@, pair.1@))
}

/// The first place of a key, or the length of the list.
pub open spec fn key_index(pairs: Seq<Pair>, key: Seq<char>) -> int
    decreases pairs.len(),
{
    if pairs.len() == 0 || pairs[0].0 == key {
        0
    } else {
        1 + key_index(pairs.skip(1), key)
    }
}

/// The list with a value for a key: in the first place that the key has, or
/// else at the end.
pub open spec fn upserted(pairs: Seq<Pair>, key: Seq<char>, value: Seq<char>) -> Seq<Pair> {
    let i = key_index(pairs, key);
    if i < pairs.len() {
        pairs.update(i, (key, value))
    } else {
        pairs.push((key, value))
    }
}

/// No key occurs twice.
pub open spec fn distinct_keys(pairs: Seq<Pair>) -> bool {
    forall|i: int, j: int|
        0 <= i < pairs.len() && 0 <= j < pairs.len() && i != j ==> #[trigger] pairs[i].0
            != #[trigger] pairs[j].0
}

/// `key_index` is the first place of the key, if it has one.
pub proof fn lemma_key_index(pairs: Seq<Pair>, key: Seq<char>)
    ensures
        0 <= key_index(pairs, key) <= pairs.len(),
        key_index(pairs, key) < pairs.len() ==> pairs[key_index(pairs, key)].0 == key,
        forall|i: int| 0 <= i < key_index(pairs, key) ==> #[trigger] pairs[i].0 != key,
    decreases pairs.len(),
{
    if pairs.len() > 0 && pairs[0].0 != key {
        let rest = pairs.skip(1);
        lemma_key_index(rest, key);
        assert forall|i: int| 0 <= i < key_index(pairs, key) implies #[trigger] pairs[i].0
            != key by {
            if i > 0 {
                assert(pairs[i] == rest[i - 1]);
            }
        }
    }
}

/// Only one place is the first place of a key.
pub proof fn lemma_key_index_unique(pairs: Seq<Pair>, key: Seq<char>, place: int)
    requires
        0 <= place <= pairs.len(),
        place < pairs.len() ==> pairs[place].0 == key,
        forall|i: int| 0 <= i < place ==> #[trigger] pairs[i].0 != key,
    ensures
        key_index(pairs, key) == place,
{
    lemma_key_index(pairs, key);
    let found = key_index(pairs, key);
    if found < place {
        assert(pairs[found].0 != key);
    } else if found > place {
        assert(pairs[place].0 != key);
    }
}

/// The first place of a key, or the length of the list.
pub fn find_key(pairs: &Vec<(String, String)>, key: &str) -> (place: usize)
    ensures
        place == key_index(pair_views(pairs@), key@),
        place <= pairs@.len(),
{
    let n = pairs.len();
    let mut place: usize = 0;
    let ghost all = pair_views(pairs@);
    while place < n && !same_text(pairs[place].0.as_str(), key)
        invariant
            place <= n,
            n == pairs.len(),
            all == pair_views(pairs@),
            forall|i: int| 0 <= i < place ==> #[trigger] all[i].0 != key@,
        decreases n - place,
    {
        place += 1;
    }
    proof {
        lemma_key_index_unique(all, key@, place as int);
    }
    place
}

/// Gives a key a value: in the first place that the key has, or else at the
/// end.
pub fn upsert(pairs: &mut Vec<(String, String)>, key: String, value: String)
    ensures
        pair_views(final(pairs)@) == upserted(pair_views(old(pairs)@), key@, value@),
{
    let place = find_key(pairs, key.as_str());
    let ghost before = pair_views(pairs@);
    let ghost pair = (key@, value@);
    if place < pairs.len() {
        pairs.set(place, (key, value));
        proof {
            assert(pair_views(pairs@) =~= before.update(place as int, pair));
        }
    } else {
        pairs.push((key, value));
        proof {
            assert(pair_views(pairs@) =~= before.push(pair));
        }
    }
}

} // verus!
