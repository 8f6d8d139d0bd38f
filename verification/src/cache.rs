//! A cache of upstream answers, each kept until its expiry time.
use vstd::prelude::*;

use crate::json::JsonValue;
use crate::json::JsonView;

verus! {

/// A cached answer: the document and the time (in nanoseconds on the
/// server's monotonic clock) from which it is no longer served.
pub struct CacheEntry {
    pub key: String,
    pub payload: JsonValue,
    pub expires_at_ns: u64,
}

/// Cached upstream answers by request path. At most one entry per key.
pub struct ResponseCache {
    entries: Vec<CacheEntry>,
}

/// The map that a sequence of entries stands for; later entries win.
pub open spec fn entries_map(entries: Seq<CacheEntry>) -> Map<Seq<char>, (JsonView, u64)>
    decreases entries.len(),
{
    if entries.len() == 0 {
        Map::empty()
    } else {
        entries_map(entries.drop_last()).insert(
            entries.last().key@,
            (entries.last().payload@, entries.last().expires_at_ns),
        )
    }
}

/// No two entries share a key.
pub open spec fn distinct_keys(entries: Seq<CacheEntry>) -> bool {
    forall|i: int, j: int|
        0 <= i < entries.len() && 0 <= j < entries.len() && i != j ==> #[trigger] entries[i].key@
            != #[trigger] entries[j].key@
}

/// The answer for `key` that may still be served at time `now_ns`: present and
/// not yet expired.
pub open spec fn fresh_payload(
    cache: Map<Seq<char>, (JsonView, u64)>,
    key: Seq<char>,
    now_ns: u64,
) -> Option<JsonView> {
    if cache.contains_key(key) && now_ns < cache[key].1 {
        Some(cache[key].0)
    } else {
        None
    }
}

/// With distinct keys, the map holds exactly the entries' keys, each with its entry.
pub proof fn lemma_entries_map(entries: Seq<CacheEntry>)
    requires
        distinct_keys(entries),
    ensures
        forall|j: int|
            0 <= j < entries.len() ==> #[trigger] entries_map(entries).contains_key(entries[j].key@)
                && entries_map(entries)[entries[j].key@] == (
                entries[j].payload@,
                entries[j].expires_at_ns,
            ),
        forall|k: Seq<char>|
            #[trigger] entries_map(entries).contains_key(k) ==> exists|j: int|
                0 <= j < entries.len() && entries[j].key@ == k,
        entries_map(entries).dom().finite(),
        entries_map(entries).dom().len() == entries.len(),
    decreases entries.len(),
{
    if entries.len() > 0 {
        let init = entries.drop_last();
        assert(distinct_keys(init)) by {
            assert forall|i: int, j: int|
                0 <= i < init.len() && 0 <= j < init.len() && i != j implies #[trigger] init[i].key@
                != #[trigger] init[j].key@ by {
                assert(init[i] == entries[i] && init[j] == entries[j]);
            }
        }
        lemma_entries_map(init);
        let last = entries.last();
        if entries_map(init).contains_key(last.key@) {
            let j = choose|j: int| 0 <= j < init.len() && init[j].key@ == last.key@;
            assert(entries[j].key@ == entries[entries.len() - 1].key@);
        }
        assert forall|k: Seq<char>| #[trigger]
            entries_map(entries).contains_key(k) implies exists|j: int|
            0 <= j < entries.len() && entries[j].key@ == k by {
            if k != last.key@ {
                let j = choose|j: int| 0 <= j < init.len() && init[j].key@ == k;
                assert(entries[j] == init[j]);
            } else {
                assert(entries[entries.len() - 1].key@ == k);
            }
        }
        assert forall|j: int| 0 <= j < entries.len() implies #[trigger] entries_map(
            entries,
        ).contains_key(entries[j].key@) && entries_map(entries)[entries[j].key@] == (
            entries[j].payload@,
            entries[j].expires_at_ns,
        ) by {
            if j < entries.len() - 1 {
                assert(entries[j] == init[j]);
                assert(entries[j].key@ != entries[entries.len() - 1].key@);
            }
        }
    }
}

impl View for ResponseCache {
    type V = Map<Seq<char>, (JsonView, u64)>;

    closed spec fn view(&self) -> Map<Seq<char>, (JsonView, u64)> {
        entries_map(self.entries@)
    }
}

/// Where `key` is among the entries; with distinct keys, no entry when the
/// map has no such key.
fn entries_position(entries: &Vec<CacheEntry>, key: &String) -> (found: Option<usize>)
    requires
        distinct_keys(entries@),
    ensures
        match found {
            Some(i) => i < entries@.len() && entries@[i as int].key@ == key@,
            None => !entries_map(entries@).contains_key(key@),
        },
{
    proof {
        lemma_entries_map(entries@);
    }
    let mut i: usize = 0;
    while i < entries.len()
        invariant
            i <= entries@.len(),
            forall|j: int| 0 <= j < i ==> #[trigger] entries@[j].key@ != key@,
        decreases entries.len() - i,
    {
        if entries[i].key == *key {
            return Some(i);
        }
        i = i + 1;
    }
    proof {
        if entries_map(entries@).contains_key(key@) {
            let j = choose|j: int| 0 <= j < entries@.len() && entries@[j].key@ == key@;
            assert(entries@[j].key@ != key@);
        }
    }
    None
}

impl ResponseCache {
    /// The cache keeps at most one entry per key.
    #[verifier::type_invariant]
    spec fn one_entry_per_key(self) -> bool {
        distinct_keys(self.entries@)
    }

    /// An empty cache.
    pub fn new() -> (cache: ResponseCache)
        ensures
            cache@ == Map::<Seq<char>, (JsonView, u64)>::empty(),
    {
        ResponseCache { entries: Vec::new() }
    }

    /// The number of cached keys, expired ones included.
    pub fn len(&self) -> (n: usize)
        ensures
            n == self@.dom().len(),
    {
        proof {
            use_type_invariant(self);
            lemma_entries_map(self.entries@);
        }
        self.entries.len()
    }

    /// The answer cached under `key` if it has not expired at `now_ns`.
    pub fn lookup_fresh(&self, key: &String, now_ns: u64) -> (found: Option<JsonValue>)
        ensures
            match fresh_payload(self@, key@, now_ns) {
                Some(v) => found matches Some(f) && f@ == v,
                None => found is None,
            },
    {
        proof {
            use_type_invariant(self);
            lemma_entries_map(self.entries@);
        }
        match entries_position(&self.entries, key) {
            Some(i) => {
                let entry = &self.entries[i];
                assert(entries_map(self.entries@).contains_key(self.entries@[i as int].key@));
                if now_ns < entry.expires_at_ns {
                    Some(entry.payload.duplicate())
                } else {
                    None
                }
            },
            None => None,
        }
    }

    /// Caches `payload` under `key` until `expires_at_ns`, replacing any
    /// earlier answer for that key.
    pub fn store(&mut self, key: String, payload: JsonValue, expires_at_ns: u64)
        ensures
            final(self)@ == old(self)@.insert(key@, (payload@, expires_at_ns)),
    {
        proof {
            use_type_invariant(&*self);
        }
        let mut entries: Vec<CacheEntry> = Vec::new();
        std::mem::swap(&mut entries, &mut self.entries);
        proof {
            lemma_entries_map(entries@);
        }
        let ghost before = entries@;
        let ghost value = (payload@, expires_at_ns);
        let entry = CacheEntry { key, payload, expires_at_ns };
        match entries_position(&entries, &entry.key) {
            Some(i) => {
                entries.set(i, entry);
                proof {
                    let after = entries@;
                    assert(distinct_keys(after)) by {
                        assert forall|a: int, b: int|
                            0 <= a < after.len() && 0 <= b < after.len() && a != b implies #[trigger] after[a].key@
                            != #[trigger] after[b].key@ by {
                            if a != i && b != i {
                                assert(after[a] == before[a] && after[b] == before[b]);
                            } else if a == i {
                                assert(after[b] == before[b]);
                            } else {
                                assert(after[a] == before[a]);
                            }
                        }
                    }
                    lemma_entries_map(after);
                    assert(entries_map(after) =~= entries_map(before).insert(after[i as int].key@, value)) by {
                        assert forall|k: Seq<char>| #[trigger]
                            entries_map(after).contains_key(k) <==> entries_map(before).insert(
                                after[i as int].key@,
                                value,
                            ).contains_key(k) by {
                            if entries_map(after).contains_key(k) {
                                let j = choose|j: int| 0 <= j < after.len() && after[j].key@ == k;
                                if j != i {
                                    assert(after[j] == before[j]);
                                }
                            }
                            if entries_map(before).contains_key(k) {
                                let j = choose|j: int| 0 <= j < before.len() && before[j].key@ == k;
                                if j != i {
                                    assert(after[j] == before[j]);
                                } else {
                                    assert(after[i as int].key@ == k);
                                }
                            }
                        }
                        assert forall|k: Seq<char>| #[trigger]
                            entries_map(after).contains_key(k) implies entries_map(after)[k]
                            == entries_map(before).insert(after[i as int].key@, value)[k] by {
                            let j = choose|j: int| 0 <= j < after.len() && after[j].key@ == k;
                            if j != i {
                                assert(after[j] == before[j]);
                            }
                        }
                    }
                }
            },
            None => {
                entries.push(entry);
                proof {
                    let after = entries@;
                    assert(after.drop_last() =~= before);
                    assert(distinct_keys(after)) by {
                        assert forall|a: int, b: int|
                            0 <= a < after.len() && 0 <= b < after.len() && a != b implies #[trigger] after[a].key@
                            != #[trigger] after[b].key@ by {
                            if a < before.len() && b < before.len() {
                                assert(after[a] == before[a] && after[b] == before[b]);
                            } else if a < before.len() {
                                assert(after[a] == before[a]);
                                assert(entries_map(before).contains_key(after[a].key@));
                            } else {
                                assert(after[b] == before[b]);
                                assert(entries_map(before).contains_key(after[b].key@));
                            }
                        }
                    }
                }
            },
        }
        self.entries = entries;
    }
}

/// A stored answer is served until its expiry and not after; storing under one
/// key leaves what every other key serves unchanged.
pub proof fn law_cache_read_after_write(
    cache: Map<Seq<char>, (JsonView, u64)>,
    key: Seq<char>,
    payload: JsonView,
    expires_at_ns: u64,
    other: Seq<char>,
    now_ns: u64,
)
    ensures
        fresh_payload(cache.insert(key, (payload, expires_at_ns)), key, now_ns) == if now_ns
            < expires_at_ns {
            Some(payload)
        } else {
            None
        },
        other != key ==> fresh_payload(cache.insert(key, (payload, expires_at_ns)), other, now_ns)
            == fresh_payload(cache, other, now_ns),
{
}

} // verus!
