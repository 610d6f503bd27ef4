use vstd::prelude::*;
use crate::model::views;

verus! {

/// A model value that is stored under a key of its own.
pub trait KeyedView {
    /// The key under which the value is stored.
    spec fn key(&self) -> Seq<char>;
}

/// A value whose model is stored under a key that the value holds as a string.
pub trait Keyed: View + Sized where Self::V: KeyedView {
    /// The string that holds the key.
    fn key_ref(&self) -> (k: &String)
        ensures
            k@ == self@.key(),
    ;
}

/// A string is stored under itself.
impl KeyedView for Seq<char> {
    open spec fn key(&self) -> Seq<char> {
        *self
    }
}

impl Keyed for String {
    fn key_ref(&self) -> (k: &String) {
        self
    }
}

/// The keys of a sequence of entries, in order.
pub open spec fn keys<V: KeyedView>(entries: Seq<V>) -> Seq<Seq<char>> {
    entries.map_values(|e: V| e.key())
}

/// True when no two entries share a key.
pub open spec fn distinct<V: KeyedView>(entries: Seq<V>) -> bool {
    keys(entries).no_duplicates()
}

/// True when an entry is stored under `k`.
pub open spec fn has_key<V: KeyedView>(entries: Seq<V>, k: Seq<char>) -> bool {
    exists|i: int| 0 <= i < entries.len() && (#[trigger] entries[i]).key() == k
}

/// True when `i` is the place of the first entry stored under `k`.
pub open spec fn first_at<V: KeyedView>(entries: Seq<V>, k: Seq<char>, i: int) -> bool {
    &&& 0 <= i < entries.len()
    &&& entries[i].key() == k
    &&& forall|j: int| 0 <= j < i ==> (#[trigger] entries[j]).key() != k
}

/// The place of the first entry stored under `k`, if there is one.
pub open spec fn position<V: KeyedView>(entries: Seq<V>, k: Seq<char>) -> Option<int> {
    if has_key(entries, k) {
        Some(choose|i: int| first_at(entries, k, i))
    } else {
        None
    }
}

/// The entry stored under `k`, if there is one.
pub open spec fn lookup<V: KeyedView>(entries: Seq<V>, k: Seq<char>) -> Option<V> {
    match position(entries, k) {
        Some(i) => Some(entries[i]),
        None => None,
    }
}

/// The entries after `entry` has been stored: it takes the place of the
/// entry with its key, or, where there is none, comes last.
pub open spec fn upsert<V: KeyedView>(entries: Seq<V>, entry: V) -> Seq<V> {
    match position(entries, entry.key()) {
        Some(i) => entries.update(i, entry),
        None => entries.push(entry),
    }
}

/// The entries after the one stored under `k`, if any, has been taken out.
/// The others keep their order.
pub open spec fn without<V: KeyedView>(entries: Seq<V>, k: Seq<char>) -> Seq<V> {
    match position(entries, k) {
        Some(i) => entries.remove(i),
        None => entries,
    }
}

/// A key is among the keys just when an entry is stored under it.
pub proof fn lemma_keys<V: KeyedView>(entries: Seq<V>, k: Seq<char>)
    ensures
        keys(entries).contains(k) <==> has_key(entries, k),
{
    if keys(entries).contains(k) {
        let i = choose|i: int| 0 <= i < keys(entries).len() && keys(entries)[i] == k;
        assert(entries[i].key() == k);
    }
    if has_key(entries, k) {
        let i = choose|i: int| 0 <= i < entries.len() && (#[trigger] entries[i]).key() == k;
        assert(keys(entries)[i] == k);
    }
}

/// Entries with the same keys in the same order have the same places.
pub proof fn lemma_same_keys<V: KeyedView, U: KeyedView>(
    entries: Seq<V>,
    others: Seq<U>,
    k: Seq<char>,
)
    requires
        keys(entries) == keys(others),
    ensures
        position(entries, k) == position(others, k),
        has_key(entries, k) == has_key(others, k),
{
    assert(entries.len() == keys(entries).len());
    assert(others.len() == keys(others).len());
    assert forall|i: int| 0 <= i < entries.len() implies (#[trigger] entries[i]).key()
        == others[i].key() by {
        assert(keys(entries)[i] == keys(others)[i]);
    }
    assert forall|i: int| 0 <= i < others.len() implies (#[trigger] others[i]).key()
        == entries[i].key() by {
        assert(keys(entries)[i] == keys(others)[i]);
    }
    lemma_position(entries, k);
    lemma_position(others, k);
    match position(entries, k) {
        Some(i) => {
            assert(others[i].key() == k);
            assert(first_at(others, k, i)) by {
                assert forall|j: int| 0 <= j < i implies (#[trigger] others[j]).key() != k by {
                    assert(entries[j].key() != k);
                }
            }
        },
        None => {
            if has_key(others, k) {
                let j = position(others, k)->0;
                assert(entries[j].key() == k);
            }
        },
    }
}

/// `position` finds the first entry under a key, and finds one whenever
/// there is one.
pub proof fn lemma_position<V: KeyedView>(entries: Seq<V>, k: Seq<char>)
    ensures
        match position(entries, k) {
            Some(i) => first_at(entries, k, i),
            None => forall|j: int| 0 <= j < entries.len() ==> (#[trigger] entries[j]).key() != k,
        },
        forall|i: int| first_at(entries, k, i) ==> position(entries, k) == Some(i),
{
    if has_key(entries, k) {
        let w = choose|i: int| 0 <= i < entries.len() && (#[trigger] entries[i]).key() == k;
        lemma_first_exists(entries, k, w);
        let p = choose|i: int| first_at(entries, k, i);
        assert forall|i: int| first_at(entries, k, i) implies i == p by {
            if i < p {
                assert(entries[i].key() == k);
            } else if p < i {
                assert(entries[p].key() == k);
            }
        }
    } else {
        assert forall|i: int| first_at(entries, k, i) implies position(entries, k) == Some(i) by {
            assert(entries[i].key() == k);
        }
    }
}

proof fn lemma_first_exists<V: KeyedView>(entries: Seq<V>, k: Seq<char>, w: int)
    requires
        0 <= w < entries.len(),
        entries[w].key() == k,
    ensures
        exists|i: int| first_at(entries, k, i),
    decreases w,
{
    if exists|j: int| 0 <= j < w && (#[trigger] entries[j]).key() == k {
        let j = choose|j: int| 0 <= j < w && (#[trigger] entries[j]).key() == k;
        lemma_first_exists(entries, k, j);
    } else {
        assert(first_at(entries, k, w));
    }
}

/// Storing an entry keeps the keys distinct, makes the entry the one found
/// under its key, and leaves what is found under every other key as it was.
pub proof fn lemma_upsert<V: KeyedView>(entries: Seq<V>, entry: V)
    requires
        distinct(entries),
    ensures
        distinct(upsert(entries, entry)),
        lookup(upsert(entries, entry), entry.key()) == Some(entry),
        forall|k: Seq<char>|
            k != entry.key() ==> #[trigger] lookup(upsert(entries, entry), k) == lookup(entries, k),
        forall|k: Seq<char>|
            #[trigger] has_key(upsert(entries, entry), k) <==> k == entry.key() || has_key(
                entries,
                k,
            ),
{
    let after = upsert(entries, entry);
    lemma_position(entries, entry.key());
    assert forall|i: int, j: int|
        0 <= i < after.len() && 0 <= j < after.len() && i != j implies keys(after)[i] != keys(
        after,
    )[j] by {
        if i < entries.len() && j < entries.len() {
            assert(keys(entries)[i] != keys(entries)[j]);
        }
        if i < entries.len() {
            assert(keys(entries)[i] == entries[i].key());
        }
        if j < entries.len() {
            assert(keys(entries)[j] == entries[j].key());
        }
    }
    lemma_position(after, entry.key());
    match position(entries, entry.key()) {
        Some(p) => {
            assert(after[p].key() == entry.key());
            let q = position(after, entry.key())->0;
            if q != p {
                assert(keys(after)[p] == keys(after)[q]);
            }
        },
        None => {
            let p = entries.len() as int;
            assert(after[p].key() == entry.key());
            let q = position(after, entry.key())->0;
            if q != p {
                assert(keys(after)[p] == keys(after)[q]);
            }
        },
    }
    assert forall|k: Seq<char>| k != entry.key() implies #[trigger] lookup(after, k) == lookup(
        entries,
        k,
    ) by {
        lemma_position(entries, k);
        lemma_position(after, k);
        match position(entries, k) {
            Some(p) => {
                assert(after[p].key() == k);
                assert(first_at(after, k, p)) by {
                    assert forall|j: int| 0 <= j < p implies (#[trigger] after[j]).key() != k by {
                        assert(entries[j].key() != k);
                    }
                }
            },
            None => {
                if has_key(after, k) {
                    let q = position(after, k)->0;
                    assert(after[q].key() == k);
                    if q < entries.len() {
                        assert(entries[q].key() != k);
                    }
                }
            },
        }
    }
    assert forall|k: Seq<char>| #[trigger]
        has_key(after, k) <==> k == entry.key() || has_key(entries, k) by {
        lemma_position(entries, k);
        lemma_position(after, k);
        if has_key(entries, k) && k != entry.key() {
            let p = position(entries, k)->0;
            assert(after[p].key() == k);
        }
        if has_key(after, k) && k != entry.key() {
            let q = position(after, k)->0;
            assert(after[q].key() == k);
            assert(q < entries.len());
            assert(entries[q].key() == k);
        }
        if k == entry.key() {
            assert(lookup(after, k) is Some);
        }
    }
}

/// Taking a key out keeps the keys distinct, leaves nothing under that key,
/// and leaves what is found under every other key as it was.
pub proof fn lemma_without<V: KeyedView>(entries: Seq<V>, k: Seq<char>)
    requires
        distinct(entries),
    ensures
        distinct(without(entries, k)),
        !has_key(without(entries, k), k),
        forall|other: Seq<char>|
            other != k ==> #[trigger] lookup(without(entries, k), other) == lookup(entries, other),
        forall|other: Seq<char>|
            #[trigger] has_key(without(entries, k), other) <==> other != k && has_key(
                entries,
                other,
            ),
{
    let after = without(entries, k);
    lemma_position(entries, k);
    match position(entries, k) {
        Some(p) => {
            assert forall|i: int| 0 <= i < after.len() implies #[trigger] after[i] == entries[if i
                < p {
                i
            } else {
                i + 1
            }] by {}
            assert forall|i: int, j: int|
                0 <= i < after.len() && 0 <= j < after.len() && i != j implies keys(after)[i]
                != keys(after)[j] by {
                let si = if i < p {
                    i
                } else {
                    i + 1
                };
                let sj = if j < p {
                    j
                } else {
                    j + 1
                };
                assert(keys(entries)[si] != keys(entries)[sj]);
            }
            assert forall|i: int| 0 <= i < after.len() implies (#[trigger] after[i]).key() != k by {
                let si = if i < p {
                    i
                } else {
                    i + 1
                };
                assert(keys(entries)[si] != keys(entries)[p]);
            }
            assert forall|other: Seq<char>| other != k implies #[trigger] lookup(after, other)
                == lookup(entries, other) by {
                lemma_position(entries, other);
                lemma_position(after, other);
                match position(entries, other) {
                    Some(q) => {
                        let t = if q < p {
                            q
                        } else {
                            q - 1
                        };
                        assert(after[t] == entries[q]);
                        assert(first_at(after, other, t)) by {
                            assert forall|j: int| 0 <= j < t implies (#[trigger] after[j]).key()
                                != other by {
                                let sj = if j < p {
                                    j
                                } else {
                                    j + 1
                                };
                                assert(entries[sj].key() != other);
                            }
                        }
                    },
                    None => {
                        if has_key(after, other) {
                            let t = position(after, other)->0;
                            let st = if t < p {
                                t
                            } else {
                                t + 1
                            };
                            assert(entries[st].key() == other);
                        }
                    },
                }
            }
            assert forall|other: Seq<char>| #[trigger]
                has_key(after, other) <==> other != k && has_key(entries, other) by {
                lemma_position(entries, other);
                lemma_position(after, other);
                if other != k {
                    assert(lookup(after, other) == lookup(entries, other));
                }
            }
        },
        None => {},
    }
}

/// Finds the place of the first entry stored under `k`.
pub fn find<T: Keyed>(entries: &Vec<T>, k: &String) -> (found: Option<usize>)
    where
        T::V: KeyedView,
    ensures
        match found {
            Some(i) => i < entries@.len() && position(views(entries@), k@) == Some(i as int),
            None => position(views(entries@), k@) is None,
        },
{
    let mut i: usize = 0;
    while i < entries.len()
        invariant
            i <= entries.len(),
            forall|j: int| 0 <= j < i ==> (#[trigger] views(entries@)[j]).key() != k@,
        decreases entries.len() - i,
    {
        if *entries[i].key_ref() == *k {
            proof {
                assert(views(entries@)[i as int].key() == k@);
                assert(first_at(views(entries@), k@, i as int));
                lemma_position(views(entries@), k@);
            }
            return Some(i);
        }
        i += 1;
    }
    proof {
        lemma_position(views(entries@), k@);
    }
    None
}

/// Stores `entry`: in the place of the entry with its key, or, where there
/// is none, behind the others.
pub fn put<T: Keyed>(entries: &mut Vec<T>, entry: T)
    where
        T::V: KeyedView,
    ensures
        views(final(entries)@) == upsert(views(old(entries)@), entry@),
{
    match find(entries, entry.key_ref()) {
        Some(i) => {
            entries[i] = entry;
            assert(views(entries@) =~= upsert(views(old(entries)@), entry@));
        },
        None => {
            entries.push(entry);
            assert(views(entries@) =~= upsert(views(old(entries)@), entry@));
        },
    }
}

/// Takes out the entry stored under `k`, if there is one, and hands it back.
pub fn take_out<T: Keyed>(entries: &mut Vec<T>, k: &String) -> (taken: Option<T>)
    where
        T::V: KeyedView,
    ensures
        views(final(entries)@) == without(views(old(entries)@), k@),
        match taken {
            Some(t) => lookup(views(old(entries)@), k@) == Some(t@),
            None => lookup(views(old(entries)@), k@) is None,
        },
{
    match find(entries, k) {
        Some(i) => {
            let t = entries.remove(i);
            assert(views(entries@) =~= without(views(old(entries)@), k@));
            Some(t)
        },
        None => None,
    }
}

} // verus!
