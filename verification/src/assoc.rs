//! Association lists keyed by text: a sequence of (key, value) pairs read
//! by the first pair whose key matches.
use vstd::prelude::*;

verus! {

/// The value stored for `key` in an association list: the first entry
/// with that key.
pub open spec fn assoc<V>(entries: Seq<(Seq<char>, V)>, key: Seq<char>) -> Option<V>
    decreases entries.len(),
{
    if entries.len() == 0 {
        None
    } else if entries[0].0 == key {
        Some(entries[0].1)
    } else {
        assoc(entries.drop_first(), key)
    }
}

/// The first pair whose key is `key` gives the value.
pub proof fn lemma_assoc_index<V>(e: Seq<(Seq<char>, V)>, key: Seq<char>, i: int)
    requires
        0 <= i < e.len(),
        e[i].0 == key,
        forall|j: int| 0 <= j < i ==> e[j].0 != key,
    ensures
        assoc(e, key) == Some(e[i].1),
    decreases i,
{
    if i > 0 {
        lemma_assoc_index::<V>(e.drop_first(), key, i - 1);
    }
}

/// A key that no pair has gives nothing.
pub proof fn lemma_assoc_absent<V>(e: Seq<(Seq<char>, V)>, key: Seq<char>)
    requires
        forall|j: int| 0 <= j < e.len() ==> e[j].0 != key,
    ensures
        assoc(e, key) is None,
    decreases e.len(),
{
    if e.len() > 0 {
        lemma_assoc_absent::<V>(e.drop_first(), key);
    }
}

/// Appending a pair only adds a value for a key that had none.
pub proof fn lemma_assoc_push<V>(e: Seq<(Seq<char>, V)>, p: (Seq<char>, V), key: Seq<char>)
    ensures
        assoc(e.push(p), key) == (match assoc(e, key) {
            Some(v) => Some(v),
            None => if p.0 == key {
                Some(p.1)
            } else {
                None
            },
        }),
    decreases e.len(),
{
    let ep = e.push(p);
    if e.len() > 0 {
        assert(ep[0] == e[0]);
        assert(ep.drop_first() =~= e.drop_first().push(p));
        lemma_assoc_push::<V>(e.drop_first(), p, key);
        if e[0].0 == key {
            assert(assoc(ep, key) == Some(e[0].1));
        } else {
            assert(assoc(ep, key) == assoc(ep.drop_first(), key));
            assert(assoc(e, key) == assoc(e.drop_first(), key));
        }
    } else {
        assert(ep[0] == p);
        assert(ep.drop_first() =~= Seq::<(Seq<char>, V)>::empty());
        assert(assoc(ep.drop_first(), key) is None);
        assert(assoc(e, key) is None);
    }
}

/// Replacing the value of the first pair with a given key changes the
/// value of that key alone.
pub proof fn lemma_assoc_update<V>(e: Seq<(Seq<char>, V)>, i: int, v: V, key: Seq<char>)
    requires
        0 <= i < e.len(),
        forall|j: int| 0 <= j < i ==> e[j].0 != e[i].0,
    ensures
        assoc(e.update(i, (e[i].0, v)), key) == (if key == e[i].0 {
            Some(v)
        } else {
            assoc(e, key)
        }),
    decreases i,
{
    let e2 = e.update(i, (e[i].0, v));
    if i == 0 {
        assert(e2[0] == (e[0].0, v));
        assert(e2.drop_first() =~= e.drop_first());
    } else {
        assert(e2[0] == e[0]);
        if e[0].0 != key {
            assert(e2.drop_first() =~= e.drop_first().update(i - 1, (e[i].0, v)));
            assert(e.drop_first()[i - 1] == e[i]);
            lemma_assoc_update::<V>(e.drop_first(), i - 1, v, key);
        } else {
            assert(e[0].0 != e[i].0);
        }
    }
}

} // verus!
