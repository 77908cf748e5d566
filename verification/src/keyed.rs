//! Records kept by a text key, one record per key, in the order they were
//! first stored: the engine's maps of suppliers, orders, quotations and
//! contracts.
use vstd::prelude::*;

verus! {

/// A record that carries its own key.
pub trait Keyed {
    /// The record's key.
    spec fn key(&self) -> Seq<char>;

    /// The record's key, as text.
    fn key_text(&self) -> (r: &String)
        ensures
            r@ == self.key(),
    ;
}

/// No two records share a key.
pub open spec fn keys_unique<T: Keyed>(s: Seq<T>) -> bool {
    forall|i: int, j: int|
        0 <= i < s.len() && 0 <= j < s.len() && i != j ==> #[trigger] s[i].key() != #[trigger] s[j].key()
}

/// Some record has key `k`.
pub open spec fn has_key<T: Keyed>(s: Seq<T>, k: Seq<char>) -> bool {
    exists|i: int| 0 <= i < s.len() && #[trigger] s[i].key() == k
}

/// The position of the record with key `k` (meaningful when there is one).
pub open spec fn key_index<T: Keyed>(s: Seq<T>, k: Seq<char>) -> int {
    choose|i: int| 0 <= i < s.len() && #[trigger] s[i].key() == k
}

/// The record with key `k`, if any.
pub open spec fn lookup<T: Keyed>(s: Seq<T>, k: Seq<char>) -> Option<T> {
    if has_key(s, k) {
        Some(s[key_index(s, k)])
    } else {
        None
    }
}

/// Stores `x` under its key: it replaces the record with that key in place,
/// or is appended when the key is new.
pub open spec fn upsert<T: Keyed>(s: Seq<T>, x: T) -> Seq<T> {
    if has_key(s, x.key()) {
        s.update(key_index(s, x.key()), x)
    } else {
        s.push(x)
    }
}

/// `after` is `before` with a record stored under key `k` as `upsert` does,
/// and that record satisfies `made`.
pub open spec fn stored_as<T: Keyed>(
    before: Seq<T>,
    after: Seq<T>,
    k: Seq<char>,
    made: spec_fn(T) -> bool,
) -> bool {
    &&& has_key(after, k)
    &&& made(after[key_index(after, k)])
    &&& after == upsert(before, after[key_index(after, k)])
}

/// With unique keys, the record at a position holding key `k` is the one
/// that `key_index` names.
pub proof fn lemma_key_index_unique<T: Keyed>(s: Seq<T>, i: int)
    requires
        keys_unique(s),
        0 <= i < s.len(),
    ensures
        has_key(s, s[i].key()),
        key_index(s, s[i].key()) == i,
        lookup(s, s[i].key()) == Some(s[i]),
{
    assert(has_key(s, s[i].key()));
    let j = key_index(s, s[i].key());
    assert(s[j].key() == s[i].key());
}

/// What is stored under a key is found under it; every other key finds what
/// it found before; keys stay unique.
pub proof fn law_upsert_lookup<T: Keyed>(s: Seq<T>, x: T, k: Seq<char>)
    requires
        keys_unique(s),
    ensures
        keys_unique(upsert(s, x)),
        lookup(upsert(s, x), x.key()) == Some(x),
        k != x.key() ==> lookup(upsert(s, x), k) == lookup(s, k),
        has_key(s, x.key()) ==> upsert(s, x).len() == s.len(),
        !has_key(s, x.key()) ==> upsert(s, x).len() == s.len() + 1,
{
    let t = upsert(s, x);
    if has_key(s, x.key()) {
        let p = key_index(s, x.key());
        assert forall|i: int, j: int|
            0 <= i < t.len() && 0 <= j < t.len() && i != j implies #[trigger] t[i].key() != #[trigger] t[j].key() by {
            if i == p {
                assert(s[j].key() != s[p].key());
            } else if j == p {
                assert(s[i].key() != s[p].key());
            } else {
                assert(s[i].key() != s[j].key());
            }
        }
        lemma_key_index_unique(t, p);
        if k != x.key() {
            if has_key(s, k) {
                let q = key_index(s, k);
                assert(q != p);
                assert(t[q] == s[q]);
                lemma_key_index_unique(t, q);
                lemma_key_index_unique(s, q);
            } else {
                assert forall|i: int| 0 <= i < t.len() implies #[trigger] t[i].key() != k by {
                    if i != p {
                        assert(t[i] == s[i]);
                    }
                }
            }
        }
    } else {
        let p = s.len() as int;
        assert forall|i: int, j: int|
            0 <= i < t.len() && 0 <= j < t.len() && i != j implies #[trigger] t[i].key() != #[trigger] t[j].key() by {
            if i == p {
                assert(s[j].key() != x.key());
            } else if j == p {
                assert(s[i].key() != x.key());
            } else {
                assert(s[i].key() != s[j].key());
            }
        }
        lemma_key_index_unique(t, p);
        if k != x.key() {
            if has_key(s, k) {
                let q = key_index(s, k);
                assert(t[q] == s[q]);
                lemma_key_index_unique(t, q);
                lemma_key_index_unique(s, q);
            } else {
                assert forall|i: int| 0 <= i < t.len() implies #[trigger] t[i].key() != k by {
                    if i != p {
                        assert(t[i] == s[i]);
                    }
                }
            }
        }
    }
}

/// What was stored under a key is found under it, and every other key
/// finds what it found before.
pub proof fn law_stored_then_found<T: Keyed>(
    before: Seq<T>,
    after: Seq<T>,
    k: Seq<char>,
    made: spec_fn(T) -> bool,
    other: Seq<char>,
)
    requires
        keys_unique(before),
        stored_as(before, after, k, made),
    ensures
        lookup(after, k) is Some,
        made(lookup(after, k)->Some_0),
        other != k ==> lookup(after, other) == lookup(before, other),
{
    let x = after[key_index(after, k)];
    assert(x.key() == k);
    law_upsert_lookup(before, x, other);
}

/// Storing a record with property `p` among records that all have it leaves
/// every record with it.
pub proof fn lemma_upsert_all<T: Keyed>(s: Seq<T>, x: T, p: spec_fn(T) -> bool)
    requires
        forall|i: int| 0 <= i < s.len() ==> p(#[trigger] s[i]),
        p(x),
    ensures
        forall|i: int| 0 <= i < upsert(s, x).len() ==> p(#[trigger] upsert(s, x)[i]),
{
    let t = upsert(s, x);
    if has_key(s, x.key()) {
        let q = key_index(s, x.key());
        assert forall|i: int| 0 <= i < t.len() implies p(#[trigger] t[i]) by {
            if i != q {
                assert(t[i] == s[i]);
            }
        }
    } else {
        assert forall|i: int| 0 <= i < t.len() implies p(#[trigger] t[i]) by {
            if i < s.len() {
                assert(t[i] == s[i]);
            }
        }
    }
}

/// Replacing a record by one with the same key keeps keys unique, and the
/// key still names that position.
pub proof fn lemma_update_same_key<T: Keyed>(s: Seq<T>, i: int, x: T)
    requires
        keys_unique(s),
        0 <= i < s.len(),
        x.key() == s[i].key(),
    ensures
        keys_unique(s.update(i, x)),
        key_index(s.update(i, x), x.key()) == i,
        forall|k: Seq<char>| #[trigger] has_key(s.update(i, x), k) == has_key(s, k),
{
    let t = s.update(i, x);
    assert forall|a: int, b: int|
        0 <= a < t.len() && 0 <= b < t.len() && a != b implies #[trigger] t[a].key() != #[trigger] t[b].key() by {
        assert(s[a].key() != s[b].key());
    }
    lemma_key_index_unique(t, i);
    assert forall|k: Seq<char>| #[trigger] has_key(t, k) == has_key(s, k) by {
        if has_key(t, k) {
            let j = choose|j: int| 0 <= j < t.len() && #[trigger] t[j].key() == k;
            assert(s[j].key() == k);
        }
        if has_key(s, k) {
            let j = choose|j: int| 0 <= j < s.len() && #[trigger] s[j].key() == k;
            assert(t[j].key() == k);
        }
    }
}

/// The position of the record with key `k`, or `None` when no record has it.
pub fn find_keyed<T: Keyed>(v: &Vec<T>, k: &String) -> (r: Option<usize>)
    requires
        keys_unique(v@),
    ensures
        match r {
            Some(i) => i < v@.len() && v@[i as int].key() == k@ && key_index(v@, k@) == i
                && lookup(v@, k@) == Some(v@[i as int]),
            None => !has_key(v@, k@) && lookup(v@, k@) == None::<T>,
        },
{
    let mut i: usize = 0;
    while i < v.len()
        invariant
            keys_unique(v@),
            i <= v@.len(),
            forall|j: int| 0 <= j < i ==> #[trigger] v@[j].key() != k@,
        decreases v@.len() - i,
    {
        if *v[i].key_text() == *k {
            proof {
                lemma_key_index_unique(v@, i as int);
            }
            return Some(i);
        }
        i = i + 1;
    }
    None
}

/// Stores `x` under its key, as `upsert` says.
pub fn upsert_keyed<T: Keyed>(v: &mut Vec<T>, x: T)
    requires
        keys_unique(old(v)@),
    ensures
        final(v)@ == upsert(old(v)@, x),
        keys_unique(final(v)@),
        has_key(final(v)@, x.key()),
        final(v)@[key_index(final(v)@, x.key())] == x,
        forall|made: spec_fn(T) -> bool| made(x) ==> stored_as(old(v)@, final(v)@, x.key(), made),
{
    proof {
        law_upsert_lookup(v@, x, x.key());
    }
    let k = x.key_text().clone();
    match find_keyed(v, &k) {
        Some(i) => {
            v.set(i, x);
        },
        None => {
            v.push(x);
        },
    }
}

} // verus!
