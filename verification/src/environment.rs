//! Environments of programs: lists of variables, put in order by their names.

use vstd::prelude::*;

use crate::pairs::{
    distinct_keys, key_index, lemma_key_index, lemma_key_index_unique, pair_views, upsert,
    upserted, Pair,
};
use crate::text::chars_of;

verus! {

// ---------------------------------------------------------------------------
// The order of names
// ---------------------------------------------------------------------------

/// `a` comes before `b`, by the code points of their characters.
pub open spec fn text_before(a: Seq<char>, b: Seq<char>) -> bool
    decreases a.len(),
{
    if b.len() == 0 {
        false
    } else if a.len() == 0 {
        true
    } else {
        a[0] < b[0] || (a[0] == b[0] && text_before(a.skip(1), b.skip(1)))
    }
}

/// Tells whether `a` comes before `b`.
pub fn comes_before(a: &str, b: &str) -> (before: bool)
    ensures
        before == text_before(a@, b@),
{
    let left = chars_of(a);
    let right = chars_of(b);
    let mut i: usize = 0;
    proof {
        assert(a@.skip(0) =~= a@);
        assert(b@.skip(0) =~= b@);
    }
    while i < left.len() && i < right.len() && left[i] == right[i]
        invariant
            i <= left.len(),
            i <= right.len(),
            left@ == a@,
            right@ == b@,
            text_before(a@, b@) == text_before(a@.skip(i as int), b@.skip(i as int)),
        decreases left.len() - i,
    {
        proof {
            assert(a@.skip(i as int).skip(1) =~= a@.skip(i + 1));
            assert(b@.skip(i as int).skip(1) =~= b@.skip(i + 1));
        }
        i += 1;
    }
    if i >= right.len() {
        false
    } else if i >= left.len() {
        true
    } else {
        left[i] < right[i]
    }
}

/// Of two texts exactly one comes before the other, unless they are equal.
pub proof fn text_order_is_total(a: Seq<char>, b: Seq<char>)
    ensures
        !(text_before(a, b) && text_before(b, a)),
        !text_before(a, b) && !text_before(b, a) <==> a == b,
    decreases a.len(),
{
    if a.len() > 0 && b.len() > 0 {
        text_order_is_total(a.skip(1), b.skip(1));
        if a[0] == b[0] && a.skip(1) == b.skip(1) {
            assert(a =~= seq![a[0]] + a.skip(1));
            assert(b =~= seq![b[0]] + b.skip(1));
        }
    } else if a.len() == 0 && b.len() == 0 {
        assert(a =~= b);
    }
}

/// What comes before a text comes before all that come behind it.
pub proof fn text_order_is_transitive(a: Seq<char>, b: Seq<char>, c: Seq<char>)
    requires
        text_before(a, b),
        text_before(b, c),
    ensures
        text_before(a, c),
    decreases a.len(),
{
    if a.len() > 0 && a[0] == b[0] && b[0] == c[0] {
        text_order_is_transitive(a.skip(1), b.skip(1), c.skip(1));
    }
}

// ---------------------------------------------------------------------------
// Variables in order
// ---------------------------------------------------------------------------

/// No variable comes behind one whose name it comes before.
pub open spec fn in_order(pairs: Seq<Pair>) -> bool {
    forall|i: int, j: int|
        0 <= i < j < pairs.len() ==> !text_before(#[trigger] pairs[j].0, #[trigger] pairs[i].0)
}

/// The variables with this name, in their order.
pub open spec fn with_key(pairs: Seq<Pair>, key: Seq<char>) -> Seq<Pair>
    decreases pairs.len(),
{
    if pairs.len() == 0 {
        Seq::empty()
    } else if pairs[0].0 == key {
        seq![pairs[0]] + with_key(pairs.skip(1), key)
    } else {
        with_key(pairs.skip(1), key)
    }
}

/// The same variables put in order. Those with the same name keep theirs.
pub open spec fn is_stable_sort(sorted: Seq<Pair>, pairs: Seq<Pair>) -> bool {
    &&& in_order(sorted)
    &&& forall|key: Seq<char>| #[trigger] with_key(sorted, key) == with_key(pairs, key)
}

/// What two lists hold of a name, one behind the other.
proof fn lemma_with_key_concat(a: Seq<Pair>, b: Seq<Pair>, key: Seq<char>)
    ensures
        with_key(a + b, key) == with_key(a, key) + with_key(b, key),
    decreases a.len(),
{
    if a.len() == 0 {
        assert(a + b =~= b);
        assert(with_key(a, key) + with_key(b, key) =~= with_key(b, key));
    } else {
        assert((a + b).skip(1) =~= a.skip(1) + b);
        lemma_with_key_concat(a.skip(1), b, key);
        assert(with_key(a + b, key) =~= with_key(a, key) + with_key(b, key));
    }
}

/// A list that does not hold a name.
proof fn lemma_with_key_none(pairs: Seq<Pair>, key: Seq<char>)
    requires
        forall|i: int| 0 <= i < pairs.len() ==> #[trigger] pairs[i].0 != key,
    ensures
        with_key(pairs, key) == Seq::<Pair>::empty(),
    decreases pairs.len(),
{
    if pairs.len() > 0 {
        let rest = pairs.skip(1);
        assert forall|i: int| 0 <= i < rest.len() implies #[trigger] rest[i].0 != key by {
            assert(rest[i] == pairs[i + 1]);
        }
        lemma_with_key_none(rest, key);
    }
}

/// A list of one variable.
proof fn lemma_with_key_one(pair: Pair, key: Seq<char>)
    ensures
        with_key(seq![pair], key) == if pair.0 == key {
            seq![pair]
        } else {
            Seq::empty()
        },
{
    reveal_with_fuel(with_key, 2);
    assert(seq![pair].skip(1) =~= Seq::<Pair>::empty());
    assert(seq![pair] + Seq::<Pair>::empty() =~= seq![pair]);
}

/// What is held of a name bears that name, and is held.
proof fn lemma_with_key_member(pairs: Seq<Pair>, key: Seq<char>)
    ensures
        with_key(pairs, key).len() > 0 <==> key_index(pairs, key) < pairs.len(),
        with_key(pairs, key).len() > 0 ==> with_key(pairs, key)[0] == pairs[key_index(
            pairs,
            key,
        )],
    decreases pairs.len(),
{
    if pairs.len() > 0 && pairs[0].0 != key {
        lemma_with_key_member(pairs.skip(1), key);
        lemma_key_index(pairs.skip(1), key);
    }
}

/// Puts a variable behind all that do not come behind it.
proof fn lemma_inserted(sorted: Seq<Pair>, pairs: Seq<Pair>, place: int, pair: Pair)
    requires
        is_stable_sort(sorted, pairs),
        0 <= place <= sorted.len(),
        forall|i: int| 0 <= i < place ==> !text_before(pair.0, #[trigger] sorted[i].0),
        place < sorted.len() ==> text_before(pair.0, sorted[place].0),
    ensures
        is_stable_sort(sorted.insert(place, pair), pairs.push(pair)),
{
    let new = sorted.insert(place, pair);
    let head = sorted.take(place);
    let tail = sorted.skip(place);
    assert(sorted =~= head + tail);
    assert(new =~= head + seq![pair] + tail);
    assert(pairs.push(pair) =~= pairs + seq![pair]);
    assert forall|i: int| 0 <= i < tail.len() implies text_before(pair.0, #[trigger] tail[i].0) by {
        assert(tail[i] == sorted[place + i]);
        if i > 0 {
            let first = sorted[place].0;
            text_order_is_total(first, tail[i].0);
            if first != tail[i].0 {
                text_order_is_transitive(pair.0, first, tail[i].0);
            }
        }
    }
    assert forall|key: Seq<char>| #[trigger] with_key(new, key) == with_key(
        pairs.push(pair),
        key,
    ) by {
        lemma_with_key_concat(head + seq![pair], tail, key);
        lemma_with_key_concat(head, seq![pair], key);
        lemma_with_key_concat(head, tail, key);
        lemma_with_key_concat(pairs, seq![pair], key);
        lemma_with_key_one(pair, key);
        assert(with_key(sorted, key) == with_key(pairs, key));
        if pair.0 == key {
            assert forall|i: int| 0 <= i < tail.len() implies #[trigger] tail[i].0 != key by {
                text_order_is_total(pair.0, tail[i].0);
            }
            lemma_with_key_none(tail, key);
        }
        assert(with_key(new, key) =~= with_key(pairs.push(pair), key));
    }
    assert forall|i: int, j: int| 0 <= i < j < new.len() implies !text_before(
        #[trigger] new[j].0,
        #[trigger] new[i].0,
    ) by {
        if j < place {
            assert(new[i] == sorted[i]);
            assert(new[j] == sorted[j]);
        } else if j == place {
            assert(new[i] == sorted[i]);
        } else {
            assert(new[j] == sorted[j - 1]);
            if i < place {
                assert(new[i] == sorted[i]);
            } else if i == place {
                assert(new[j] == tail[j - 1 - place]);
                text_order_is_total(pair.0, new[j].0);
            } else {
                assert(new[i] == sorted[i - 1]);
            }
        }
    }
}

/// Puts variables in order by their names. Those with the same name keep
/// theirs.
pub fn sort_by_key(pairs: Vec<(String, String)>) -> (sorted: Vec<(String, String)>)
    ensures
        is_stable_sort(pair_views(sorted@), pair_views(pairs@)),
{
    let n = pairs.len();
    let mut sorted: Vec<(String, String)> = Vec::new();
    let mut i: usize = 0;
    let ghost all = pair_views(pairs@);
    while i < n
        invariant
            i <= n,
            n == pairs.len(),
            all == pair_views(pairs@),
            is_stable_sort(pair_views(sorted@), all.take(i as int)),
        decreases n - i,
    {
        let ghost before = pair_views(sorted@);
        let key = pairs[i].0.clone();
        let value = pairs[i].1.clone();
        let ghost pair = (key@, value@);
        let mut place: usize = 0;
        while place < sorted.len() && !comes_before(key.as_str(), sorted[place].0.as_str())
            invariant
                place <= sorted.len(),
                before == pair_views(sorted@),
                forall|k: int| 0 <= k < place ==> !text_before(key@, #[trigger] before[k].0),
            decreases sorted.len() - place,
        {
            place += 1;
        }
        proof {
            lemma_inserted(before, all.take(i as int), place as int, pair);
            assert(all.take(i + 1) =~= all.take(i as int).push(pair));
        }
        sorted.insert(place, (key, value));
        proof {
            assert(pair_views(sorted@) =~= before.insert(place as int, pair));
        }
        i += 1;
    }
    proof {
        assert(all.take(n as int) =~= all);
    }
    sorted
}

// ---------------------------------------------------------------------------
// Variables given anew
// ---------------------------------------------------------------------------

/// The list with several variables given values, in turn.
pub open spec fn upserted_all(pairs: Seq<Pair>, variables: Seq<Pair>) -> Seq<Pair>
    decreases variables.len(),
{
    if variables.len() == 0 {
        pairs
    } else {
        upserted(
            upserted_all(pairs, variables.drop_last()),
            variables.last().0,
            variables.last().1,
        )
    }
}

/// The environment of a program before it is put in order: the one that is
/// given, with the variables that are set and the text of the settings under
/// its name.
pub open spec fn unordered_env(
    env: Seq<Pair>,
    variables: Seq<Pair>,
    settings_name: Seq<char>,
    settings_text: Option<Seq<char>>,
) -> Seq<Pair> {
    let given = upserted_all(env, variables);
    match settings_text {
        Some(text) => upserted(given, settings_name, text),
        None => given,
    }
}

/// Gives several variables values, in turn.
pub fn upsert_all(pairs: &mut Vec<(String, String)>, variables: &Vec<(String, String)>)
    ensures
        pair_views(final(pairs)@) == upserted_all(
            pair_views(old(pairs)@),
            pair_views(variables@),
        ),
{
    let n = variables.len();
    let mut i: usize = 0;
    let ghost start = pair_views(pairs@);
    let ghost all = pair_views(variables@);
    while i < n
        invariant
            i <= n,
            n == variables.len(),
            all == pair_views(variables@),
            pair_views(pairs@) == upserted_all(start, all.take(i as int)),
        decreases n - i,
    {
        upsert(pairs, variables[i].0.clone(), variables[i].1.clone());
        proof {
            let seen = all.take(i + 1);
            assert(seen.drop_last() =~= all.take(i as int));
            assert(seen.last() == all[i as int]);
        }
        i += 1;
    }
    proof {
        assert(all.take(n as int) =~= all);
    }
}

/// What is held of a name after a variable was given a value.
proof fn lemma_with_key_upserted(
    pairs: Seq<Pair>,
    name: Seq<char>,
    value: Seq<char>,
    key: Seq<char>,
)
    ensures
        with_key(upserted(pairs, name, value), key) == if key == name {
            replaced_first(with_key(pairs, key), (name, value))
        } else {
            with_key(pairs, key)
        },
    decreases pairs.len(),
{
    let pair = (name, value);
    let new = upserted(pairs, name, value);
    lemma_key_index(pairs, name);
    if pairs.len() == 0 {
        assert(new =~= seq![pair]);
        lemma_with_key_one(pair, key);
    } else if pairs[0].0 == name {
        assert(new.skip(1) =~= pairs.skip(1));
        assert(new[0] == pair);
        if key == name {
            let old_ones = with_key(pairs, key);
            assert(old_ones =~= seq![pairs[0]] + with_key(pairs.skip(1), key));
            assert(with_key(new, key) =~= replaced_first(old_ones, pair));
        }
    } else {
        let rest = pairs.skip(1);
        lemma_with_key_upserted(rest, name, value, key);
        lemma_key_index(rest, name);
        assert(new.skip(1) =~= upserted(rest, name, value));
        assert(new[0] == pairs[0]);
    }
}

/// The list with another first element; with one element, if it had none.
pub open spec fn replaced_first(pairs: Seq<Pair>, pair: Pair) -> Seq<Pair> {
    if pairs.len() == 0 {
        seq![pair]
    } else {
        pairs.update(0, pair)
    }
}

/// What is held of a name after several variables with different names were
/// given values.
proof fn lemma_with_key_upserted_all(pairs: Seq<Pair>, variables: Seq<Pair>, key: Seq<char>)
    requires
        distinct_keys(variables),
    ensures
        with_key(upserted_all(pairs, variables), key) == if key_index(variables, key)
            < variables.len() {
            replaced_first(with_key(pairs, key), variables[key_index(variables, key)])
        } else {
            with_key(pairs, key)
        },
    decreases variables.len(),
{
    lemma_key_index(variables, key);
    if variables.len() > 0 {
        let others = variables.drop_last();
        let last = variables.last();
        let n = variables.len() - 1;
        let place = key_index(variables, key);
        assert forall|i: int, j: int|
            0 <= i < others.len() && 0 <= j < others.len() && i != j implies #[trigger] others[i].0
            != #[trigger] others[j].0 by {
            assert(others[i] == variables[i]);
            assert(others[j] == variables[j]);
        }
        lemma_with_key_upserted_all(pairs, others, key);
        lemma_with_key_upserted(upserted_all(pairs, others), last.0, last.1, key);
        lemma_key_index(others, key);
        let was = key_index(others, key);
        if was < others.len() {
            assert(others[was].0 == key);
            assert(variables[was].0 == key);
            assert(variables[n].0 != variables[was].0);
            if place < was {
                assert(others[place].0 != key);
            } else if place > was {
                assert(variables[was].0 != key);
            }
        } else if place < others.len() {
            assert(others[place].0 != key);
        } else if last.0 == key {
            assert(variables[n].0 == key);
        }
    }
}

// ---------------------------------------------------------------------------
// Laws
// ---------------------------------------------------------------------------

/// There is only one way to put variables in order.
pub proof fn stable_sort_is_unique(a: Seq<Pair>, b: Seq<Pair>)
    requires
        in_order(a),
        in_order(b),
        forall|key: Seq<char>| #[trigger] with_key(a, key) == with_key(b, key),
    ensures
        a == b,
    decreases a.len(),
{
    if a.len() == 0 {
        if b.len() > 0 {
            assert(with_key(a, b[0].0) == with_key(b, b[0].0));
        }
        assert(a =~= b);
    } else {
        let first = a[0].0;
        assert(with_key(a, first) == with_key(b, first));
        lemma_with_key_member(a, first);
        lemma_with_key_member(b, first);
        lemma_key_index(b, first);
        let at = key_index(b, first);
        let other = b[0].0;
        assert(with_key(a, other) == with_key(b, other));
        lemma_with_key_member(a, other);
        lemma_key_index(a, other);
        let back = key_index(a, other);
        text_order_is_total(first, other);
        if at > 0 {
            assert(!text_before(b[at].0, b[0].0));
        }
        if back > 0 {
            assert(!text_before(a[back].0, a[0].0));
        }
        assert(first == other);
        assert(a[0] == b[0]);
        let x = a.skip(1);
        let y = b.skip(1);
        assert forall|key: Seq<char>| #[trigger] with_key(x, key) == with_key(y, key) by {
            assert(with_key(a, key) == with_key(b, key));
            if key == first {
                assert(with_key(a, key).skip(1) =~= with_key(x, key));
                assert(with_key(b, key).skip(1) =~= with_key(y, key));
            }
        }
        assert forall|i: int, j: int| 0 <= i < j < x.len() implies !text_before(
            #[trigger] x[j].0,
            #[trigger] x[i].0,
        ) by {
            assert(x[i] == a[i + 1]);
            assert(x[j] == a[j + 1]);
        }
        assert forall|i: int, j: int| 0 <= i < j < y.len() implies !text_before(
            #[trigger] y[j].0,
            #[trigger] y[i].0,
        ) by {
            assert(y[i] == b[i + 1]);
            assert(y[j] == b[j + 1]);
        }
        stable_sort_is_unique(x, y);
        assert(a =~= seq![a[0]] + x);
        assert(b =~= seq![b[0]] + y);
    }
}

/// The order in which variables with different names are given does not show
/// in the environment.
pub proof fn order_of_variables_does_not_show(
    env: Seq<Pair>,
    variables: Seq<Pair>,
    others: Seq<Pair>,
    settings_name: Seq<char>,
    settings_text: Option<Seq<char>>,
    sorted: Seq<Pair>,
    other_sorted: Seq<Pair>,
)
    requires
        distinct_keys(variables),
        distinct_keys(others),
        forall|pair: Pair| #[trigger] variables.contains(pair) <==> others.contains(pair),
        is_stable_sort(sorted, unordered_env(env, variables, settings_name, settings_text)),
        is_stable_sort(other_sorted, unordered_env(env, others, settings_name, settings_text)),
    ensures
        sorted == other_sorted,
{
    let given = upserted_all(env, variables);
    let other_given = upserted_all(env, others);
    assert forall|key: Seq<char>| #[trigger] with_key(given, key) == with_key(
        other_given,
        key,
    ) by {
        lemma_with_key_upserted_all(env, variables, key);
        lemma_with_key_upserted_all(env, others, key);
        lemma_key_index(variables, key);
        lemma_key_index(others, key);
        let i = key_index(variables, key);
        let j = key_index(others, key);
        if i < variables.len() {
            assert(variables.contains(variables[i]));
            assert(others.contains(variables[i]));
            let k = others.index_of(variables[i]);
            assert(others[k].0 == key);
            if j < others.len() && j != k {
                assert(others[j].0 != others[k].0);
            }
        } else if j < others.len() {
            assert(others.contains(others[j]));
            assert(variables.contains(others[j]));
            let k = variables.index_of(others[j]);
            assert(variables[k].0 == key);
        }
    }
    let all = unordered_env(env, variables, settings_name, settings_text);
    let other_all = unordered_env(env, others, settings_name, settings_text);
    assert forall|key: Seq<char>| #[trigger] with_key(sorted, key) == with_key(
        other_sorted,
        key,
    ) by {
        assert(with_key(given, key) == with_key(other_given, key));
        if settings_text is Some {
            lemma_with_key_upserted(given, settings_name, settings_text->0, key);
            lemma_with_key_upserted(other_given, settings_name, settings_text->0, key);
        }
        assert(with_key(all, key) == with_key(other_all, key));
        assert(with_key(other_sorted, key) == with_key(other_all, key));
    }
    stable_sort_is_unique(sorted, other_sorted);
}

/// A variable that is not given anew stays as it was.
pub proof fn other_variables_stay(
    env: Seq<Pair>,
    variables: Seq<Pair>,
    settings_name: Seq<char>,
    settings_text: Option<Seq<char>>,
    sorted: Seq<Pair>,
    key: Seq<char>,
)
    requires
        distinct_keys(variables),
        is_stable_sort(sorted, unordered_env(env, variables, settings_name, settings_text)),
        forall|i: int| 0 <= i < variables.len() ==> #[trigger] variables[i].0 != key,
        settings_text is Some ==> key != settings_name,
    ensures
        with_key(sorted, key) == with_key(env, key),
{
    lemma_with_key_upserted_all(env, variables, key);
    lemma_key_index(variables, key);
    let given = upserted_all(env, variables);
    if settings_text is Some {
        lemma_with_key_upserted(given, settings_name, settings_text->0, key);
    }
    assert(with_key(sorted, key) == with_key(
        unordered_env(env, variables, settings_name, settings_text),
        key,
    ));
}

/// The text of the settings stands in the environment under its name, before
/// any other value of that name.
pub proof fn settings_are_handed_on(
    env: Seq<Pair>,
    variables: Seq<Pair>,
    settings_name: Seq<char>,
    settings_text: Seq<char>,
    sorted: Seq<Pair>,
)
    requires
        is_stable_sort(sorted, unordered_env(env, variables, settings_name, Some(settings_text))),
    ensures
        key_index(sorted, settings_name) < sorted.len(),
        sorted[key_index(sorted, settings_name)] == (settings_name, settings_text),
{
    let given = upserted_all(env, variables);
    lemma_with_key_upserted(given, settings_name, settings_text, settings_name);
    assert(with_key(sorted, settings_name) == with_key(
        upserted(given, settings_name, settings_text),
        settings_name,
    ));
    lemma_with_key_member(sorted, settings_name);
}

/// The variables with this name, in their order.
pub open spec fn under(pairs: Seq<Pair>, key: Seq<char>) -> Seq<Pair> {
    pairs.filter(|pair: Pair| pair.0 == key)
}

proof fn lemma_under(pairs: Seq<Pair>, key: Seq<char>)
    ensures
        under(pairs, key) == with_key(pairs, key),
    decreases pairs.len(),
{
    reveal(Seq::filter);
    if pairs.len() > 0 {
        let body = pairs.drop_last();
        let last = pairs.last();
        lemma_under(body, key);
        lemma_with_key_concat(body, seq![last], key);
        lemma_with_key_one(last, key);
        assert(pairs =~= body + seq![last]);
        assert(under(pairs, key) =~= with_key(pairs, key));
    }
}

/// The list without its first element, if it has one.
pub open spec fn behind_first(pairs: Seq<Pair>) -> Seq<Pair> {
    if pairs.len() == 0 {
        pairs
    } else {
        pairs.skip(1)
    }
}

/// The pair stands in the list, before any other under its name.
pub open spec fn comes_first(pairs: Seq<Pair>, pair: Pair) -> bool {
    exists|k: int|
        0 <= k < pairs.len() && #[trigger] pairs[k] == pair && forall|j: int|
            0 <= j < k ==> (#[trigger] pairs[j]).0 != pair.0
}

proof fn lemma_comes_first(pairs: Seq<Pair>, pair: Pair)
    requires
        with_key(pairs, pair.0).len() > 0,
        with_key(pairs, pair.0)[0] == pair,
    ensures
        comes_first(pairs, pair),
{
    lemma_with_key_member(pairs, pair.0);
    lemma_key_index(pairs, pair.0);
    assert(pairs[key_index(pairs, pair.0)] == pair);
}

/// Putting variables in order loses none, adds none and keeps those of the same
/// name in their order; and of two variables the one whose name comes before
/// stands first.
pub proof fn sorting_keeps_all_variables(sorted: Seq<Pair>, pairs: Seq<Pair>)
    requires
        is_stable_sort(sorted, pairs),
    ensures
        forall|key: Seq<char>| #[trigger] under(sorted, key) == under(pairs, key),
        forall|i: int, j: int|
            0 <= i < sorted.len() && 0 <= j < sorted.len() && text_before(
                #[trigger] sorted[i].0,
                #[trigger] sorted[j].0,
            ) ==> i < j,
{
    assert forall|key: Seq<char>| #[trigger] under(sorted, key) == under(pairs, key) by {
        lemma_under(sorted, key);
        lemma_under(pairs, key);
        assert(with_key(sorted, key) == with_key(pairs, key));
    }
    assert forall|i: int, j: int|
        0 <= i < sorted.len() && 0 <= j < sorted.len() && text_before(
            #[trigger] sorted[i].0,
            #[trigger] sorted[j].0,
        ) implies i < j by {
        text_order_is_total(sorted[i].0, sorted[j].0);
    }
}

/// Each variable that is set stands in the environment with its value, before
/// any other under its name, whether or not a text of settings is handed on
/// too. What else stands under its name stood there before.
pub proof fn set_variables_are_handed_on(
    env: Seq<Pair>,
    variables: Seq<Pair>,
    settings_name: Seq<char>,
    settings_text: Option<Seq<char>>,
    sorted: Seq<Pair>,
    i: int,
)
    requires
        distinct_keys(variables),
        is_stable_sort(sorted, unordered_env(env, variables, settings_name, settings_text)),
        0 <= i < variables.len(),
        settings_text is Some ==> variables[i].0 != settings_name,
    ensures
        comes_first(sorted, variables[i]),
        under(sorted, variables[i].0) == seq![variables[i]] + behind_first(
            under(env, variables[i].0),
        ),
{
    let key = variables[i].0;
    let given = upserted_all(env, variables);
    lemma_key_index(variables, key);
    let place = key_index(variables, key);
    if place != i {
        assert(variables[place].0 != variables[i].0);
    }
    lemma_with_key_upserted_all(env, variables, key);
    if settings_text is Some {
        lemma_with_key_upserted(given, settings_name, settings_text->0, key);
    }
    assert(with_key(sorted, key) == with_key(
        unordered_env(env, variables, settings_name, settings_text),
        key,
    ));
    lemma_under(sorted, key);
    lemma_under(env, key);
    assert(under(sorted, key) =~= seq![variables[i]] + behind_first(under(env, key)));
    lemma_comes_first(sorted, variables[i]);
}

/// The text of the settings stands in the environment under its name, before
/// any other. What else stands under that name stood there before.
pub proof fn settings_text_comes_first(
    env: Seq<Pair>,
    variables: Seq<Pair>,
    settings_name: Seq<char>,
    settings_text: Seq<char>,
    sorted: Seq<Pair>,
)
    requires
        distinct_keys(variables),
        is_stable_sort(sorted, unordered_env(env, variables, settings_name, Some(settings_text))),
    ensures
        comes_first(sorted, (settings_name, settings_text)),
        under(sorted, settings_name) == seq![(settings_name, settings_text)] + behind_first(
            under(env, settings_name),
        ),
{
    let given = upserted_all(env, variables);
    lemma_with_key_upserted_all(env, variables, settings_name);
    lemma_with_key_upserted(given, settings_name, settings_text, settings_name);
    assert(with_key(sorted, settings_name) == with_key(
        upserted(given, settings_name, settings_text),
        settings_name,
    ));
    lemma_under(sorted, settings_name);
    lemma_under(env, settings_name);
    assert(under(sorted, settings_name) =~= seq![(settings_name, settings_text)]
        + behind_first(under(env, settings_name)));
    lemma_comes_first(sorted, (settings_name, settings_text));
}

/// What stands in the environment under a name that nothing was set for stood
/// there before.
pub proof fn nothing_else_is_handed_on(
    env: Seq<Pair>,
    variables: Seq<Pair>,
    settings_name: Seq<char>,
    settings_text: Option<Seq<char>>,
    sorted: Seq<Pair>,
    key: Seq<char>,
)
    requires
        distinct_keys(variables),
        is_stable_sort(sorted, unordered_env(env, variables, settings_name, settings_text)),
        forall|i: int| 0 <= i < variables.len() ==> #[trigger] variables[i].0 != key,
        settings_text is Some ==> key != settings_name,
    ensures
        under(sorted, key) == under(env, key),
{
    other_variables_stay(env, variables, settings_name, settings_text, sorted, key);
    lemma_under(sorted, key);
    lemma_under(env, key);
}

/// Giving a variable a value changes the first one of its name, or adds it at
/// the end where there is none.
pub proof fn first_variable_of_a_name_is_changed(
    pairs: Seq<Pair>,
    key: Seq<char>,
    value: Seq<char>,
    place: int,
)
    requires
        0 <= place <= pairs.len(),
        forall|i: int| 0 <= i < place ==> #[trigger] pairs[i].0 != key,
    ensures
        place < pairs.len() && pairs[place].0 == key ==> upserted(pairs, key, value)
            == pairs.update(place, (key, value)),
        place == pairs.len() ==> upserted(pairs, key, value) == pairs.push((key, value)),
{
    if place == pairs.len() || pairs[place].0 == key {
        lemma_key_index_unique(pairs, key, place);
    }
}

/// Names are ordered by the first character in which they differ; one that the
/// other starts with comes first.
pub proof fn names_are_ordered_by_their_first_difference(
    start: Seq<char>,
    a: char,
    b: char,
    rest_a: Seq<char>,
    rest_b: Seq<char>,
)
    requires
        a != b,
    ensures
        text_before(start + seq![a] + rest_a, start + seq![b] + rest_b) <==> (a as u32) < (
        b as u32),
        text_before(start, start + seq![a] + rest_a),
    decreases start.len(),
{
    let x = start + seq![a] + rest_a;
    let y = start + seq![b] + rest_b;
    if start.len() == 0 {
        assert(x[0] == a && y[0] == b);
    } else {
        let tail = start.skip(1);
        assert(x.skip(1) =~= tail + seq![a] + rest_a);
        assert(y.skip(1) =~= tail + seq![b] + rest_b);
        assert(x[0] == start[0] && y[0] == start[0]);
        names_are_ordered_by_their_first_difference(tail, a, b, rest_a, rest_b);
    }
}

/// Variables by their characters, in their order.
pub proof fn variables_by_their_characters(pairs: Seq<(String, String)>)
    ensures
        pair_views(pairs).len() == pairs.len(),
        forall|i: int|
            0 <= i < pairs.len() ==> (#[trigger] pair_views(pairs)[i]).0 == pairs[i].0@
                && pair_views(pairs)[i].1 == pairs[i].1@,
{
}

} // verus!
