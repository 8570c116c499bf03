//! Tables: key/value pairs of words, kept in the order of their keys' raw bits.

use vstd::prelude::*;
use vstd::std_specs::btree::increasing_seq;
use vstd::std_specs::cmp::OrdSpec;
use std::collections::BTreeMap;
use crate::word::structure::Word;

verus! {

broadcast use vstd::std_specs::btree::group_btree_axioms;

/// The value stored under `key` in a sequence of pairs: that of the first pair with
/// this key.
pub open spec fn lookup(pairs: Seq<(Word, Word)>, key: Word) -> Option<Word>
    decreases pairs.len(),
{
    if pairs.len() == 0 {
        None
    } else if pairs[0].0 == key {
        Some(pairs[0].1)
    } else {
        lookup(pairs.drop_first(), key)
    }
}

/// A sequence of pairs after `key` was given `value`, where the sequence is in the order
/// of its keys: the pair takes the place of the one with this key, or else the place
/// before the first greater key.
pub open spec fn inserted(pairs: Seq<(Word, Word)>, key: Word, value: Word) -> Seq<(Word, Word)>
    decreases pairs.len(),
{
    if pairs.len() == 0 {
        seq![(key, value)]
    } else if pairs[0].0 == key {
        seq![(key, value)] + pairs.drop_first()
    } else if key.0 < pairs[0].0.0 {
        seq![(key, value)] + pairs
    } else {
        seq![pairs[0]] + inserted(pairs.drop_first(), key, value)
    }
}

/// A sequence of pairs without the first pair that has this key.
pub open spec fn removed(pairs: Seq<(Word, Word)>, key: Word) -> Seq<(Word, Word)>
    decreases pairs.len(),
{
    if pairs.len() == 0 {
        pairs
    } else if pairs[0].0 == key {
        pairs.drop_first()
    } else {
        seq![pairs[0]] + removed(pairs.drop_first(), key)
    }
}

/// Whether the keys strictly increase, by their raw bits.
pub open spec fn ordered(pairs: Seq<(Word, Word)>) -> bool {
    forall|i: int, j: int| 0 <= i < j < pairs.len() ==> pairs[i].0.0 < pairs[j].0.0
}

/// The table that holds the given pairs, each later one overriding an earlier one with
/// the same key.
pub open spec fn collected(pairs: Seq<(Word, Word)>) -> Seq<(Word, Word)>
    decreases pairs.len(),
{
    if pairs.len() == 0 {
        Seq::empty()
    } else {
        inserted(collected(pairs.drop_last()), pairs.last().0, pairs.last().1)
    }
}

/// Inserting keeps the order and grows the sequence by at most one pair.
pub proof fn lemma_inserted_ordered(pairs: Seq<(Word, Word)>, key: Word, value: Word)
    requires
        ordered(pairs),
    ensures
        ordered(inserted(pairs, key, value)),
        pairs.len() <= inserted(pairs, key, value).len() <= pairs.len() + 1,
        forall|i: int|
            0 <= i < inserted(pairs, key, value).len() ==> {
                ||| #[trigger] inserted(pairs, key, value)[i] == (key, value)
                ||| exists|j: int| 0 <= j < pairs.len() && pairs[j] == inserted(pairs, key, value)[i]
            },
    decreases pairs.len(),
{
    let out = inserted(pairs, key, value);
    if pairs.len() == 0 {
    } else if pairs[0].0 == key {
        assert forall|i: int, j: int| 0 <= i < j < out.len() implies out[i].0.0 < out[j].0.0 by {
            if i == 0 {
                assert(out[j] == pairs[j]);
            } else {
                assert(out[i] == pairs[i] && out[j] == pairs[j]);
            }
        }
        assert forall|i: int| 0 <= i < out.len() implies {
            ||| #[trigger] out[i] == (key, value)
            ||| exists|j: int| 0 <= j < pairs.len() && pairs[j] == out[i]
        } by {
            if i > 0 {
                assert(pairs[i] == out[i]);
            }
        }
    } else if key.0 < pairs[0].0.0 {
        assert forall|i: int, j: int| 0 <= i < j < out.len() implies out[i].0.0 < out[j].0.0 by {
            if i == 0 {
                assert(out[j] == pairs[j - 1]);
            } else {
                assert(out[i] == pairs[i - 1] && out[j] == pairs[j - 1]);
            }
        }
        assert forall|i: int| 0 <= i < out.len() implies {
            ||| #[trigger] out[i] == (key, value)
            ||| exists|j: int| 0 <= j < pairs.len() && pairs[j] == out[i]
        } by {
            if i > 0 {
                assert(pairs[i - 1] == out[i]);
            }
        }
    } else {
        let rest = pairs.drop_first();
        let sub = inserted(rest, key, value);
        assert(ordered(rest)) by {
            assert forall|i: int, j: int| 0 <= i < j < rest.len() implies rest[i].0.0
                < rest[j].0.0 by {
                assert(rest[i] == pairs[i + 1] && rest[j] == pairs[j + 1]);
            }
        }
        lemma_inserted_ordered(rest, key, value);
        assert(key.0 != pairs[0].0.0) by {
            if key.0 == pairs[0].0.0 {
                assert(key == pairs[0].0);
            }
        }
        assert forall|i: int| 0 <= i < out.len() implies {
            ||| #[trigger] out[i] == (key, value)
            ||| exists|j: int| 0 <= j < pairs.len() && pairs[j] == out[i]
        } by {
            if i == 0 {
                assert(pairs[0] == out[0]);
            } else {
                assert(out[i] == sub[i - 1]);
                if sub[i - 1] != (key, value) {
                    let j = choose|j: int| 0 <= j < rest.len() && rest[j] == sub[i - 1];
                    assert(pairs[j + 1] == out[i]);
                }
            }
        }
        assert forall|i: int, j: int| 0 <= i < j < out.len() implies out[i].0.0 < out[j].0.0 by {
            if i == 0 {
                assert(out[j] == sub[j - 1]);
                if sub[j - 1] != (key, value) {
                    let k = choose|k: int| 0 <= k < rest.len() && rest[k] == sub[j - 1];
                    assert(rest[k] == pairs[k + 1]);
                }
            } else {
                assert(out[i] == sub[i - 1] && out[j] == sub[j - 1]);
            }
        }
    }
}

/// Removing keeps the order.
pub proof fn lemma_removed_ordered(pairs: Seq<(Word, Word)>, key: Word)
    requires
        ordered(pairs),
    ensures
        ordered(removed(pairs, key)),
        forall|i: int|
            0 <= i < removed(pairs, key).len() ==> exists|j: int|
                0 <= j < pairs.len() && pairs[j] == #[trigger] removed(pairs, key)[i],
    decreases pairs.len(),
{
    let out = removed(pairs, key);
    if pairs.len() == 0 {
    } else {
        let rest = pairs.drop_first();
        assert(ordered(rest)) by {
            assert forall|i: int, j: int| 0 <= i < j < rest.len() implies rest[i].0.0
                < rest[j].0.0 by {
                assert(rest[i] == pairs[i + 1] && rest[j] == pairs[j + 1]);
            }
        }
        if pairs[0].0 == key {
            assert forall|i: int| 0 <= i < out.len() implies exists|j: int|
                0 <= j < pairs.len() && pairs[j] == #[trigger] out[i] by {
                assert(pairs[i + 1] == out[i]);
            }
        } else {
            lemma_removed_ordered(rest, key);
            let sub = removed(rest, key);
            assert forall|i: int| 0 <= i < out.len() implies exists|j: int|
                0 <= j < pairs.len() && pairs[j] == #[trigger] out[i] by {
                if i == 0 {
                    assert(pairs[0] == out[0]);
                } else {
                    assert(out[i] == sub[i - 1]);
                    let j = choose|j: int| 0 <= j < rest.len() && rest[j] == sub[i - 1];
                    assert(pairs[j + 1] == out[i]);
                }
            }
            assert forall|i: int, j: int| 0 <= i < j < out.len() implies out[i].0.0
                < out[j].0.0 by {
                if i == 0 {
                    assert(out[j] == sub[j - 1]);
                    let k = choose|k: int| 0 <= k < rest.len() && rest[k] == sub[j - 1];
                    assert(rest[k] == pairs[k + 1]);
                } else {
                    assert(out[i] == sub[i - 1] && out[j] == sub[j - 1]);
                }
            }
        }
    }
}

/// After inserting, the key has the new value and every other key what it had.
pub proof fn lemma_inserted_lookup(pairs: Seq<(Word, Word)>, key: Word, value: Word, other: Word)
    ensures
        lookup(inserted(pairs, key, value), key) == Some(value),
        other != key ==> lookup(inserted(pairs, key, value), other) == lookup(pairs, other),
    decreases pairs.len(),
{
    let out = inserted(pairs, key, value);
    let rest = out.drop_first();
    if pairs.len() == 0 {
        assert(out[0] == (key, value));
        assert(rest =~= Seq::empty());
        assert(lookup(rest, other) == None::<Word>);
    } else if pairs[0].0 == key {
        assert(out[0] == (key, value));
        assert(rest =~= pairs.drop_first());
    } else if key.0 < pairs[0].0.0 {
        assert(out[0] == (key, value));
        assert(rest =~= pairs);
    } else {
        lemma_inserted_lookup(pairs.drop_first(), key, value, other);
        assert(out[0] == pairs[0]);
        assert(rest =~= inserted(pairs.drop_first(), key, value));
    }
    assert(lookup(out, key) == Some(value));
    if other != key {
        assert(lookup(out, other) == if out[0].0 == other {
            Some(out[0].1)
        } else {
            lookup(rest, other)
        });
    }
}

/// Collected pairs are in order.
pub proof fn lemma_collected_ordered(pairs: Seq<(Word, Word)>)
    ensures
        ordered(collected(pairs)),
        collected(pairs).len() <= pairs.len(),
    decreases pairs.len(),
{
    if pairs.len() > 0 {
        lemma_collected_ordered(pairs.drop_last());
        lemma_inserted_ordered(collected(pairs.drop_last()), pairs.last().0, pairs.last().1);
    }
}

/// A pair more at the end is found where no pair before it has the key.
pub proof fn lemma_lookup_push(pairs: Seq<(Word, Word)>, pair: (Word, Word), key: Word)
    ensures
        lookup(pairs.push(pair), key) == match lookup(pairs, key) {
            Some(value) => Some(value),
            None => if pair.0 == key {
                Some(pair.1)
            } else {
                None
            },
        },
    decreases pairs.len(),
{
    let more = pairs.push(pair);
    if pairs.len() == 0 {
        assert(more[0] == pair);
        assert(more.drop_first() =~= Seq::<(Word, Word)>::empty());
        assert(lookup(more.drop_first(), key) == None::<Word>);
    } else {
        assert(more[0] == pairs[0]);
        assert(more.drop_first() =~= pairs.drop_first().push(pair));
        lemma_lookup_push(pairs.drop_first(), pair, key);
    }
}

/// In pairs in the order of their keys, each pair is found under its key.
pub proof fn lemma_lookup_index(pairs: Seq<(Word, Word)>, index: int)
    requires
        ordered(pairs),
        0 <= index < pairs.len(),
    ensures
        lookup(pairs, pairs[index].0) == Some(pairs[index].1),
    decreases pairs.len(),
{
    if index > 0 {
        let rest = pairs.drop_first();
        assert(pairs[0].0.0 < pairs[index].0.0);
        assert forall|i: int, j: int| 0 <= i < j < rest.len() implies rest[i].0.0 < rest[j].0.0 by {
            assert(rest[i] == pairs[i + 1] && rest[j] == pairs[j + 1]);
        }
        assert(rest[index - 1] == pairs[index]);
        lemma_lookup_index(rest, index - 1);
    }
}

/// What is found under a key is the value of a pair with that key; nothing is found
/// where no pair has the key.
pub proof fn lemma_lookup_found(pairs: Seq<(Word, Word)>, key: Word)
    ensures
        match lookup(pairs, key) {
            Some(value) => exists|i: int| 0 <= i < pairs.len() && pairs[i] == (key, value),
            None => forall|i: int| 0 <= i < pairs.len() ==> pairs[i].0 != key,
        },
    decreases pairs.len(),
{
    if pairs.len() > 0 {
        let rest = pairs.drop_first();
        if pairs[0].0 == key {
            assert(pairs[0] == (key, pairs[0].1));
        } else {
            lemma_lookup_found(rest, key);
            match lookup(rest, key) {
                Some(value) => {
                    let i = choose|i: int| 0 <= i < rest.len() && rest[i] == (key, value);
                    assert(pairs[i + 1] == (key, value));
                },
                None => {
                    assert forall|i: int| 0 <= i < pairs.len() implies pairs[i].0 != key by {
                        if i > 0 {
                            assert(rest[i - 1] == pairs[i]);
                        }
                    }
                },
            }
        }
    }
}

/// Pairs in the order of their keys are told by what is found under each key.
pub proof fn lemma_same_pairs(a: Seq<(Word, Word)>, b: Seq<(Word, Word)>)
    requires
        ordered(a),
        ordered(b),
        forall|key: Word| lookup(a, key) == lookup(b, key),
    ensures
        a == b,
    decreases a.len(),
{
    if a.len() == 0 {
        if b.len() > 0 {
            lemma_lookup_index(b, 0);
            assert(lookup(a, b[0].0) == lookup(b, b[0].0));
        }
        assert(a =~= b);
    } else {
        lemma_lookup_index(a, 0);
        assert(lookup(a, a[0].0) == lookup(b, a[0].0));
        lemma_lookup_found(b, a[0].0);
        let j = choose|j: int| 0 <= j < b.len() && b[j] == (a[0].0, a[0].1);
        lemma_lookup_index(b, 0);
        assert(lookup(a, b[0].0) == lookup(b, b[0].0));
        lemma_lookup_found(a, b[0].0);
        let i = choose|i: int| 0 <= i < a.len() && a[i] == (b[0].0, b[0].1);
        assert(a[0].0.0 <= a[i].0.0);
        assert(b[0].0.0 <= b[j].0.0);
        assert(a[0].0.0 == b[0].0.0);
        assert(a[0].0 == b[0].0);
        assert(a[0] == b[0]);
        let ta = a.drop_first();
        let tb = b.drop_first();
        assert forall|x: int, y: int| 0 <= x < y < ta.len() implies ta[x].0.0 < ta[y].0.0 by {
            assert(ta[x] == a[x + 1] && ta[y] == a[y + 1]);
        }
        assert forall|x: int, y: int| 0 <= x < y < tb.len() implies tb[x].0.0 < tb[y].0.0 by {
            assert(tb[x] == b[x + 1] && tb[y] == b[y + 1]);
        }
        assert forall|key: Word| lookup(ta, key) == lookup(tb, key) by {
            if key == a[0].0 {
                lemma_lookup_found(ta, key);
                lemma_lookup_found(tb, key);
                if lookup(ta, key) is Some {
                    let x = choose|x: int| 0 <= x < ta.len() && ta[x].0 == key;
                    assert(ta[x] == a[x + 1]);
                    assert(a[0].0.0 < a[x + 1].0.0);
                }
                if lookup(tb, key) is Some {
                    let x = choose|x: int| 0 <= x < tb.len() && tb[x].0 == key;
                    assert(tb[x] == b[x + 1]);
                    assert(b[0].0.0 < b[x + 1].0.0);
                }
            } else {
                assert(lookup(a, key) == lookup(b, key));
            }
        }
        lemma_same_pairs(ta, tb);
        assert(a =~= seq![a[0]] + ta);
        assert(b =~= seq![b[0]] + tb);
    }
}

/// After a key was taken out nothing is found under it, and under every other key what
/// was found before.
pub proof fn lemma_removed_lookup(pairs: Seq<(Word, Word)>, key: Word, other: Word)
    requires
        ordered(pairs),
    ensures
        lookup(removed(pairs, key), key) is None,
        other != key ==> lookup(removed(pairs, key), other) == lookup(pairs, other),
    decreases pairs.len(),
{
    let out = removed(pairs, key);
    if pairs.len() > 0 {
        let rest = pairs.drop_first();
        assert forall|i: int, j: int| 0 <= i < j < rest.len() implies rest[i].0.0 < rest[j].0.0 by {
            assert(rest[i] == pairs[i + 1] && rest[j] == pairs[j + 1]);
        }
        if pairs[0].0 == key {
            lemma_lookup_found(rest, key);
            if lookup(rest, key) is Some {
                let x = choose|x: int| 0 <= x < rest.len() && rest[x].0 == key;
                assert(rest[x] == pairs[x + 1]);
                assert(pairs[0].0.0 < pairs[x + 1].0.0);
            }
        } else {
            lemma_removed_lookup(rest, key, other);
            assert(out[0] == pairs[0]);
            assert(out.drop_first() =~= removed(rest, key));
        }
    }
}

/// The pairs of a map whose keys lie below `bound`, in the order of their keys.
pub open spec fn below(map: Map<u64, Word>, bound: nat) -> Seq<(Word, Word)>
    decreases bound,
{
    if bound == 0 {
        Seq::empty()
    } else {
        let rest = below(map, (bound - 1) as nat);
        let key = (bound - 1) as u64;
        if bound - 1 <= u64::MAX && map.contains_key(key) {
            rest.push((Word(key), map[key]))
        } else {
            rest
        }
    }
}

/// The pairs of a map, in the order of their keys.
pub open spec fn listed(map: Map<u64, Word>) -> Seq<(Word, Word)> {
    below(map, 0x1_0000_0000_0000_0000)
}

/// The pairs below a bound are in the order of their keys, with every key below the
/// bound, and under a key is found what the map holds below the bound.
pub proof fn lemma_below(map: Map<u64, Word>, bound: nat)
    requires
        bound <= 0x1_0000_0000_0000_0000,
    ensures
        ordered(below(map, bound)),
        forall|i: int| 0 <= i < below(map, bound).len() ==> (#[trigger] below(map, bound)[i]).0.0
            < bound,
        forall|key: Word| #[trigger]
            lookup(below(map, bound), key) == if key.0 < bound && map.contains_key(key.0) {
                Some(map[key.0])
            } else {
                None
            },
    decreases bound,
{
    if bound == 0 {
        assert forall|key: Word| #[trigger] lookup(below(map, bound), key) == None::<Word> by {}
    } else {
        let rest = below(map, (bound - 1) as nat);
        let last = (bound - 1) as u64;
        lemma_below(map, (bound - 1) as nat);
        let pair = (Word(last), map[last]);
        assert forall|key: Word| #[trigger]
            lookup(below(map, bound), key) == if key.0 < bound && map.contains_key(key.0) {
                Some(map[key.0])
            } else {
                None
            } by {
            assert(lookup(rest, key) == if key.0 < bound - 1 && map.contains_key(key.0) {
                Some(map[key.0])
            } else {
                None
            });
            if map.contains_key(last) {
                lemma_lookup_push(rest, pair, key);
                if key.0 == last {
                    assert(key == Word(last));
                }
            }
        }
    }
}

/// The pairs of a map are in the order of their keys, and under a key is found what the
/// map holds.
pub proof fn lemma_listed(map: Map<u64, Word>)
    ensures
        ordered(listed(map)),
        forall|key: Word| #[trigger]
            lookup(listed(map), key) == if map.contains_key(key.0) {
                Some(map[key.0])
            } else {
                None
            },
{
    lemma_below(map, 0x1_0000_0000_0000_0000);
}

/// A map without keys has no pairs.
pub proof fn lemma_listed_empty()
    ensures
        listed(Map::<u64, Word>::empty()) == Seq::<(Word, Word)>::empty(),
{
    let pairs = listed(Map::<u64, Word>::empty());
    lemma_listed(Map::<u64, Word>::empty());
    if pairs.len() > 0 {
        lemma_lookup_index(pairs, 0);
        assert(lookup(pairs, pairs[0].0) is None);
    }
    assert(pairs =~= Seq::<(Word, Word)>::empty());
}

/// The pairs of a map with one key set are the pairs of the map with that pair
/// inserted.
pub proof fn lemma_listed_insert(map: Map<u64, Word>, key: Word, value: Word)
    ensures
        listed(map.insert(key.0, value)) == inserted(listed(map), key, value),
{
    let after = map.insert(key.0, value);
    lemma_listed(map);
    lemma_listed(after);
    lemma_inserted_ordered(listed(map), key, value);
    assert forall|other: Word| lookup(listed(after), other) == lookup(
        inserted(listed(map), key, value),
        other,
    ) by {
        lemma_inserted_lookup(listed(map), key, value, other);
        if other.0 == key.0 {
            assert(other == key);
        }
    }
    lemma_same_pairs(listed(after), inserted(listed(map), key, value));
}

/// The pairs of a map without one key are the pairs of the map with that key taken out.
pub proof fn lemma_listed_remove(map: Map<u64, Word>, key: Word)
    ensures
        listed(map.remove(key.0)) == removed(listed(map), key),
{
    let after = map.remove(key.0);
    lemma_listed(map);
    lemma_listed(after);
    lemma_removed_ordered(listed(map), key);
    assert forall|other: Word| lookup(listed(after), other) == lookup(
        removed(listed(map), key),
        other,
    ) by {
        lemma_removed_lookup(listed(map), key, other);
        if other.0 == key.0 {
            assert(other == key);
        }
    }
    lemma_same_pairs(listed(after), removed(listed(map), key));
}

/// A map has as many pairs as keys.
pub proof fn lemma_listed_len(map: Map<u64, Word>)
    requires
        map.dom().finite(),
    ensures
        listed(map).len() == map.dom().len(),
{
    let pairs = listed(map);
    let keys = Seq::new(pairs.len(), |i: int| pairs[i].0.0);
    lemma_listed(map);
    assert(keys.no_duplicates()) by {
        assert forall|i: int, j: int| 0 <= i < keys.len() && 0 <= j < keys.len() && i != j implies keys[i]
            != keys[j] by {
            if i < j {
                assert(pairs[i].0.0 < pairs[j].0.0);
            } else {
                assert(pairs[j].0.0 < pairs[i].0.0);
            }
        }
    }
    keys.unique_seq_to_set();
    assert(keys.to_set() =~= map.dom()) by {
        assert forall|k: u64| keys.to_set().contains(k) <==> map.dom().contains(k) by {
            if keys.to_set().contains(k) {
                let i = choose|i: int| 0 <= i < keys.len() && keys[i] == k;
                lemma_lookup_index(pairs, i);
                assert(pairs[i].0 == Word(k));
                assert(lookup(pairs, Word(k)) is Some);
            }
            if map.dom().contains(k) {
                assert(lookup(pairs, Word(k)) is Some);
                lemma_lookup_found(pairs, Word(k));
                let i = choose|i: int| 0 <= i < pairs.len() && pairs[i].0 == Word(k);
                assert(keys[i] == k);
            }
        }
    }
}

/// Pairs in the order of their keys, each of them held by a map with as many keys, are
/// the pairs of that map.
pub proof fn lemma_pairs_of(map: Map<u64, Word>, pairs: Seq<(Word, Word)>)
    requires
        map.dom().finite(),
        ordered(pairs),
        pairs.len() == map.dom().len(),
        forall|i: int|
            0 <= i < pairs.len() ==> map.contains_key((#[trigger] pairs[i]).0.0) && map[pairs[i].0.0]
                == pairs[i].1,
    ensures
        pairs == listed(map),
{
    let keys = Seq::new(pairs.len(), |i: int| pairs[i].0.0);
    assert(keys.no_duplicates()) by {
        assert forall|i: int, j: int| 0 <= i < keys.len() && 0 <= j < keys.len() && i != j implies keys[i]
            != keys[j] by {
            if i < j {
                assert(pairs[i].0.0 < pairs[j].0.0);
            } else {
                assert(pairs[j].0.0 < pairs[i].0.0);
            }
        }
    }
    keys.unique_seq_to_set();
    assert(keys.to_set().subset_of(map.dom())) by {
        assert forall|k: u64| keys.to_set().contains(k) implies map.dom().contains(k) by {
            let i = choose|i: int| 0 <= i < keys.len() && keys[i] == k;
            assert(map.contains_key(pairs[i].0.0));
        }
    }
    vstd::set_lib::lemma_len_subset(keys.to_set(), map.dom());
    vstd::set_lib::lemma_subset_equality(keys.to_set(), map.dom());
    lemma_listed(map);
    assert forall|key: Word| lookup(pairs, key) == lookup(listed(map), key) by {
        lemma_lookup_found(pairs, key);
        if map.contains_key(key.0) {
            assert(keys.to_set().contains(key.0));
            let i = choose|i: int| 0 <= i < keys.len() && keys[i] == key.0;
            assert(pairs[i].0 == key);
            lemma_lookup_index(pairs, i);
        } else {
            if lookup(pairs, key) is Some {
                let i = choose|i: int| 0 <= i < pairs.len() && pairs[i].0 == key;
                assert(map.contains_key(pairs[i].0.0));
            }
        }
    }
    lemma_same_pairs(pairs, listed(map));
}

/// Keys that a map hands out in increasing order grow from each to the next.
proof fn lemma_increasing(keys: Seq<u64>)
    requires
        increasing_seq(keys),
    ensures
        forall|i: int, j: int| 0 <= i < j < keys.len() ==> keys[i] < keys[j],
{
    assert forall|i: int, j: int| 0 <= i < j < keys.len() implies keys[i] < keys[j] by {
        assert(keys[i].cmp_spec(&keys[j]) is Less);
    }
}

/// An ordered map from words to words. Keys compare by their raw bits.
pub struct Table {
    map: BTreeMap<u64, Word>,
}

impl View for Table {
    type V = Seq<(Word, Word)>;

    closed spec fn view(&self) -> Seq<(Word, Word)> {
        listed(self.map@)
    }
}

impl Table {
    /// The pairs, in the order of their keys.
    pub fn pairs(&self) -> (pairs: Vec<(Word, Word)>)
        ensures
            pairs@ == self@,
            ordered(pairs@),
    {
        let mut pairs: Vec<(Word, Word)> = Vec::new();
        for pair in it: self.map.iter()
            invariant
                pairs@.len() == it.index(),
                forall|i: int|
                    0 <= i < pairs@.len() ==> pairs@[i] == (Word(*it.seq()[i].0), *it.seq()[i].1),
                increasing_seq(it.seq().map_values(|kv: (&u64, &Word)| *kv.0)),
                ordered(pairs@),
                forall|i: int|
                    0 <= i < pairs@.len() ==> self.map@.contains_key((#[trigger] pairs@[i]).0.0)
                        && self.map@[pairs@[i].0.0] == pairs@[i].1,
        {
            let (key, value) = pair;
            pairs.push((Word(*key), *value));
            proof {
                let keys = it.seq().map_values(|kv: (&u64, &Word)| *kv.0);
                lemma_increasing(keys);
                assert forall|i: int, j: int| 0 <= i < j < pairs@.len() implies pairs@[i].0.0
                    < pairs@[j].0.0 by {
                    assert(keys[i] == pairs@[i].0.0);
                    assert(keys[j] == pairs@[j].0.0);
                }
            }
        }
        proof {
            lemma_pairs_of(self.map@, pairs@);
        }
        pairs
    }

    pub fn new() -> (table: Table)
        ensures
            table@ == Seq::<(Word, Word)>::empty(),
    {
        proof {
            lemma_listed_empty();
        }
        Table { map: BTreeMap::new() }
    }

    pub fn len(&self) -> (n: usize)
        ensures
            n == self@.len(),
    {
        proof {
            lemma_listed_len(self.map@);
        }
        self.map.len()
    }

    /// The pair at position `index`, in the order of the keys.
    pub fn entry(&self, index: usize) -> (pair: (Word, Word))
        requires
            index < self@.len(),
        ensures
            pair == self@[index as int],
    {
        let pairs = self.pairs();
        pairs[index]
    }

    pub fn get(&self, key: &Word) -> (value: Option<Word>)
        ensures
            value == lookup(self@, *key),
    {
        proof {
            lemma_listed(self.map@);
        }
        match self.map.get(&key.0) {
            Some(value) => Some(*value),
            None => None,
        }
    }

    /// Gives `key` the value `value`, and returns the value it had.
    pub fn insert(&mut self, key: Word, value: Word) -> (previous: Option<Word>)
        ensures
            final(self)@ == inserted(old(self)@, key, value),
            previous == lookup(old(self)@, key),
    {
        proof {
            lemma_listed(self.map@);
            lemma_listed_insert(self.map@, key, value);
        }
        self.map.insert(key.0, value)
    }

    /// Takes `key` out of the table, and returns the value it had.
    pub fn remove(&mut self, key: &Word) -> (previous: Option<Word>)
        ensures
            final(self)@ == removed(old(self)@, *key),
            previous == lookup(old(self)@, *key),
    {
        proof {
            lemma_listed(self.map@);
            lemma_listed_remove(self.map@, *key);
        }
        self.map.remove(&key.0)
    }
}

} // verus!
