//! Lists of keys: membership, and taking a key out.

use vstd::prelude::*;
use crate::keysym::Keysym;

verus! {

/// `keys` without any occurrence of `key`, the rest in order.
pub open spec fn without(keys: Seq<Keysym>, key: Keysym) -> Seq<Keysym> {
    keys.filter(|k: Keysym| k != key)
}

/// Taking `key` out of `keys` with `x` appended: `x` stays at the end unless
/// it is `key`.
pub proof fn lemma_without_push(keys: Seq<Keysym>, x: Keysym, key: Keysym)
    ensures
        without(keys.push(x), key) == if x != key {
            without(keys, key).push(x)
        } else {
            without(keys, key)
        },
{
    reveal(Seq::filter);
    assert(keys.push(x).drop_last() == keys);
}

/// What is left after taking `key` out is every other key of the list.
pub proof fn lemma_without_contains(keys: Seq<Keysym>, key: Keysym, k: Keysym)
    ensures
        without(keys, key).contains(k) <==> keys.contains(k) && k != key,
    decreases keys.len(),
{
    reveal(Seq::filter);
    if keys.len() > 0 {
        let front = keys.drop_last();
        let x = keys.last();
        assert(keys == front.push(x));
        lemma_without_push(front, x, key);
        lemma_without_contains(front, key, k);
        if keys.contains(k) && k != key {
            let i = choose|i: int| 0 <= i < keys.len() && keys[i] == k;
            if i < front.len() {
                assert(front[i] == k);
                let j = choose|j: int| 0 <= j < without(front, key).len() && without(front, key)[j] == k;
                assert(without(keys, key)[j] == k);
            } else {
                assert(without(keys, key).last() == k);
            }
        }
        if without(keys, key).contains(k) {
            let j = choose|j: int| 0 <= j < without(keys, key).len() && without(keys, key)[j] == k;
            if j < without(front, key).len() {
                assert(without(front, key)[j] == k);
                let i = choose|i: int| 0 <= i < front.len() && front[i] == k;
                assert(keys[i] == k);
            } else {
                assert(keys[keys.len() - 1] == k);
            }
        }
    }
}

/// Taking a key out of a list without repetitions leaves no repetitions.
pub proof fn lemma_without_no_duplicates(keys: Seq<Keysym>, key: Keysym)
    requires
        keys.no_duplicates(),
    ensures
        without(keys, key).no_duplicates(),
    decreases keys.len(),
{
    reveal(Seq::filter);
    if keys.len() > 0 {
        let front = keys.drop_last();
        let x = keys.last();
        assert(keys == front.push(x));
        lemma_without_push(front, x, key);
        lemma_without_no_duplicates(front, key);
        if x != key {
            lemma_without_contains(front, key, x);
            assert(!front.contains(x)) by {
                if front.contains(x) {
                    let i = choose|i: int| 0 <= i < front.len() && front[i] == x;
                    assert(keys[i] == keys[keys.len() - 1]);
                }
            }
        }
    }
}

/// Taking out a key that is not in the list changes nothing; taking out one
/// that is in a list without repetitions shortens the list by one.
pub proof fn lemma_without_len(keys: Seq<Keysym>, key: Keysym)
    ensures
        !keys.contains(key) ==> without(keys, key) == keys,
        keys.no_duplicates() && keys.contains(key) ==> without(keys, key).len() == keys.len() - 1,
    decreases keys.len(),
{
    reveal(Seq::filter);
    if keys.len() > 0 {
        let front = keys.drop_last();
        let x = keys.last();
        assert(keys == front.push(x));
        lemma_without_push(front, x, key);
        lemma_without_len(front, key);
        if !keys.contains(key) {
            assert(!front.contains(key)) by {
                if front.contains(key) {
                    let i = choose|i: int| 0 <= i < front.len() && front[i] == key;
                    assert(keys[i] == key);
                }
            }
            assert(x != key) by {
                assert(keys[keys.len() - 1] == x);
            }
        }
        if keys.no_duplicates() && keys.contains(key) {
            if x == key {
                assert(!front.contains(key)) by {
                    if front.contains(key) {
                        let i = choose|i: int| 0 <= i < front.len() && front[i] == key;
                        assert(keys[i] == keys[keys.len() - 1]);
                    }
                }
            } else {
                let i = choose|i: int| 0 <= i < keys.len() && keys[i] == key;
                assert(front[i] == key);
            }
        }
    } else {
        assert(without(keys, key) == keys);
    }
}

/// Taking out a key that is in the list shortens the list.
pub proof fn lemma_without_shrinks(keys: Seq<Keysym>, key: Keysym)
    requires
        keys.contains(key),
    ensures
        without(keys, key).len() < keys.len(),
    decreases keys.len(),
{
    reveal(Seq::filter);
    let front = keys.drop_last();
    let x = keys.last();
    assert(keys == front.push(x));
    lemma_without_push(front, x, key);
    front.lemma_filter_len(|k: Keysym| k != key);
    if x != key {
        let i = choose|i: int| 0 <= i < keys.len() && keys[i] == key;
        assert(front[i] == key);
        lemma_without_shrinks(front, key);
    }
}

/// Appending a key that is not in a list without repetitions leaves no
/// repetitions.
pub proof fn lemma_push_no_duplicates(keys: Seq<Keysym>, key: Keysym)
    requires
        keys.no_duplicates(),
        !keys.contains(key),
    ensures
        keys.push(key).no_duplicates(),
{
    assert forall|i: int, j: int|
        0 <= i < keys.len() + 1 && 0 <= j < keys.len() + 1 && i != j implies keys.push(key)[i]
        != keys.push(key)[j] by {
        if i < keys.len() {
            assert(keys.contains(keys[i]));
        }
        if j < keys.len() {
            assert(keys.contains(keys[j]));
        }
    }
}

/// Whether `key` occurs in `keys`.
pub(crate) fn contains_key(keys: &Vec<Keysym>, key: Keysym) -> (found: bool)
    ensures
        found == keys@.contains(key),
{
    let mut i: usize = 0;
    while i < keys.len()
        invariant
            i <= keys.len(),
            forall|j: int| 0 <= j < i ==> keys@[j] != key,
        decreases keys.len() - i,
    {
        if keys[i] == key {
            return true;
        }
        i += 1;
    }
    false
}

/// Takes every occurrence of `key` out of `keys` and keeps the rest in order.
pub(crate) fn remove_key(keys: &mut Vec<Keysym>, key: Keysym)
    ensures
        final(keys)@ == without(old(keys)@, key),
{
    let mut kept: Vec<Keysym> = Vec::new();
    let mut i: usize = 0;
    proof {
        reveal(Seq::filter);
        assert(keys@.take(0) == Seq::<Keysym>::empty());
    }
    while i < keys.len()
        invariant
            i <= keys.len(),
            kept@ == without(keys@.take(i as int), key),
        decreases keys.len() - i,
    {
        let k = keys[i];
        proof {
            assert(keys@.take(i + 1) == keys@.take(i as int).push(k));
            lemma_without_push(keys@.take(i as int), k, key);
        }
        if k != key {
            kept.push(k);
        }
        i += 1;
    }
    proof {
        assert(keys@.take(keys.len() as int) == keys@);
    }
    *keys = kept;
}

} // verus!
