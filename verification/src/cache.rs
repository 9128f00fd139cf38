//! A bounded least-recently-used store of script text, kept by the `lru`
//! crate and described here by the entries it holds.

use vstd::prelude::*;

verus! {

/// The entries of a cache, the most recently used first: key and script.
pub type Entries = Seq<(Seq<char>, Seq<char>)>;

/// The `lru` cache.
#[verifier::external_type_specification]
#[verifier::external_body]
#[verifier::reject_recursive_types(K)]
#[verifier::reject_recursive_types(V)]
#[verifier::reject_recursive_types(S)]
pub struct ExLruCache<K, V, S>(lru::LruCache<K, V, S>);

/// The hasher that an `lru` cache is built with unless told otherwise.
#[verifier::external_type_specification]
#[verifier::external_body]
pub struct ExDefaultHasher(lru::DefaultHasher);

/// What a cache holds, the most recently used entry first.
pub uninterp spec fn lru_entries(cache: lru::LruCache<String, String>) -> Entries;

/// The number of entries that a cache was made to hold.
pub uninterp spec fn lru_capacity(cache: lru::LruCache<String, String>) -> nat;

/// The place of the entry with `key`, if there is one.
pub open spec fn position(entries: Entries, key: Seq<char>) -> Option<int>
    decreases entries.len(),
{
    if entries.len() == 0 {
        None
    } else if entries.last().0 == key {
        Some(entries.len() - 1)
    } else {
        position(entries.drop_last(), key)
    }
}

/// The script stored under `key`, if any.
pub open spec fn stored(entries: Entries, key: Seq<char>) -> Option<Seq<char>> {
    match position(entries, key) {
        Some(i) => Some(entries[i].1),
        None => None,
    }
}

/// The entries after `key` was put with `script`: the entry moves to the
/// front with its new script; a new key enters at the front, and where the
/// cache is full the least recently used entry leaves.
pub open spec fn after_put(entries: Entries, capacity: nat, key: Seq<char>, script: Seq<char>)
    -> Entries {
    match position(entries, key) {
        Some(i) => seq![(key, script)] + entries.remove(i),
        None => if entries.len() >= capacity && entries.len() > 0 {
            seq![(key, script)] + entries.drop_last()
        } else {
            seq![(key, script)] + entries
        },
    }
}

/// The entries after `key` was looked up: a hit moves to the front.
pub open spec fn after_get(entries: Entries, key: Seq<char>) -> Entries {
    match position(entries, key) {
        Some(i) => seq![entries[i]] + entries.remove(i),
        None => entries,
    }
}

/// No key occurs twice and the capacity is kept.
pub open spec fn well_formed(entries: Entries, capacity: nat) -> bool {
    &&& capacity > 0
    &&& entries.len() <= capacity
    &&& forall|i: int, j: int|
        0 <= i < j < entries.len() ==> (#[trigger] entries[i]).0 != (#[trigger] entries[j]).0
}

/// `lru::LruCache::new`: an empty cache for `capacity` entries.
#[verifier::external_body]
pub(crate) fn lru_new(capacity: usize) -> (cache: lru::LruCache<String, String>)
    requires
        capacity > 0,
    ensures
        lru_entries(cache) == Entries::empty(),
        lru_capacity(cache) == capacity,
{
    lru::LruCache::new(std::num::NonZeroUsize::new(capacity).unwrap_or(std::num::NonZeroUsize::MIN))
}

/// `lru::LruCache::put`: the entry for `key` is at the front with the new
/// script; a key that was not there displaces the least recently used
/// entry where the cache was full.
#[verifier::external_body]
pub(crate) fn lru_put(cache: &mut lru::LruCache<String, String>, key: String, script: String)
    ensures
        lru_entries(*final(cache)) == after_put(
            lru_entries(*old(cache)),
            lru_capacity(*old(cache)),
            key@,
            script@,
        ),
        lru_capacity(*final(cache)) == lru_capacity(*old(cache)),
{
    cache.put(key, script);
}

/// `lru::LruCache::get`: the script stored under `key`, copied out; a hit
/// moves its entry to the front.
#[verifier::external_body]
pub(crate) fn lru_get(cache: &mut lru::LruCache<String, String>, key: &str) -> (script: Option<
    String,
>)
    ensures
        match script {
            Some(s) => stored(lru_entries(*old(cache)), key@) == Some(s@),
            None => stored(lru_entries(*old(cache)), key@) is None,
        },
        lru_entries(*final(cache)) == after_get(lru_entries(*old(cache)), key@),
        lru_capacity(*final(cache)) == lru_capacity(*old(cache)),
{
    cache.get(key).cloned()
}

/// `lru::LruCache::clear`: nothing is left.
#[verifier::external_body]
pub(crate) fn lru_clear(cache: &mut lru::LruCache<String, String>)
    ensures
        lru_entries(*final(cache)) == Entries::empty(),
        lru_capacity(*final(cache)) == lru_capacity(*old(cache)),
{
    cache.clear()
}

/// A key that is found stands where `position` says.
pub proof fn lemma_position_finds(entries: Entries, key: Seq<char>)
    ensures
        match position(entries, key) {
            Some(i) => 0 <= i < entries.len() && entries[i].0 == key,
            None => forall|j: int| 0 <= j < entries.len() ==> (#[trigger] entries[j]).0 != key,
        },
    decreases entries.len(),
{
    if entries.len() > 0 && entries.last().0 != key {
        lemma_position_finds(entries.drop_last(), key);
        if position(entries, key) is None {
            assert forall|j: int| 0 <= j < entries.len() implies (#[trigger] entries[j]).0 != key by {
                if j < entries.len() - 1 {
                    assert(entries.drop_last()[j].0 != key);
                }
            }
        }
    }
}

/// Putting keeps a cache well formed, and the script put is then the one
/// stored under its key, at the front.
pub proof fn lemma_put_keeps_well_formed(
    entries: Entries,
    capacity: nat,
    key: Seq<char>,
    script: Seq<char>,
)
    requires
        well_formed(entries, capacity),
    ensures
        well_formed(after_put(entries, capacity, key, script), capacity),
        after_put(entries, capacity, key, script)[0] == (key, script),
        stored(after_put(entries, capacity, key, script), key) == Some(script),
{
    lemma_position_finds(entries, key);
    let after = after_put(entries, capacity, key, script);
    assert forall|i: int, j: int| 0 <= i < j < after.len() implies (#[trigger] after[i]).0 != (
    #[trigger] after[j]).0 by {
        match position(entries, key) {
            Some(p) => {
                let rest = entries.remove(p);
                assert(after[j] == rest[j - 1]);
                assert(rest[j - 1] == if j - 1 < p { entries[j - 1] } else { entries[j] });
                if i > 0 {
                    assert(after[i] == rest[i - 1]);
                    assert(rest[i - 1] == if i - 1 < p { entries[i - 1] } else { entries[i] });
                }
            },
            None => {
                if entries.len() >= capacity && entries.len() > 0 {
                    assert(after[j] == entries[j - 1]);
                    if i > 0 {
                        assert(after[i] == entries[i - 1]);
                    }
                } else {
                    assert(after[j] == entries[j - 1]);
                    if i > 0 {
                        assert(after[i] == entries[i - 1]);
                    }
                }
            },
        }
    }
    lemma_position_finds(after, key);
    match position(after, key) {
        Some(q) => {
            if q != 0 {
                assert(after[0].0 != after[q].0);
            }
        },
        None => {
            assert(after[0].0 == key);
        },
    }
}

/// Looking up keeps a cache well formed and changes no stored script.
pub proof fn lemma_get_keeps_well_formed(entries: Entries, capacity: nat, key: Seq<char>)
    requires
        well_formed(entries, capacity),
    ensures
        well_formed(after_get(entries, key), capacity),
        after_get(entries, key).len() == entries.len(),
{
    lemma_position_finds(entries, key);
    let after = after_get(entries, key);
    match position(entries, key) {
        Some(p) => {
            let rest = entries.remove(p);
            assert forall|i: int, j: int| 0 <= i < j < after.len() implies (#[trigger] after[i]).0
                != (#[trigger] after[j]).0 by {
                assert(after[j] == rest[j - 1]);
                assert(rest[j - 1] == if j - 1 < p { entries[j - 1] } else { entries[j] });
                if i > 0 {
                    assert(after[i] == rest[i - 1]);
                    assert(rest[i - 1] == if i - 1 < p { entries[i - 1] } else { entries[i] });
                } else {
                    assert(after[0] == entries[p]);
                }
            }
        },
        None => {},
    }
}

} // verus!
