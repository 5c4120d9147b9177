//! A small time-aware key/value cache: entries expire one hour after they
//! were stored. The clock is injected (seconds since some epoch) so the
//! logic is deterministic.

use vstd::prelude::*;

verus! {

/// Seconds an entry stays fresh after being stored.
pub const CACHE_TTL_SECS: u64 = 3600;

/// Mathematical model of one cache entry.
pub ghost struct CacheEntryModel {
    pub key: Seq<char>,
    pub value: Seq<char>,
    pub stored_at: u64,
}

/// One stored key/value pair with its store time.
#[derive(Debug, Clone)]
pub struct CacheEntry {
    pub key: String,
    pub value: String,
    pub stored_at: u64,
}

impl View for CacheEntry {
    type V = CacheEntryModel;

    open spec fn view(&self) -> CacheEntryModel {
        CacheEntryModel { key: self.key@, value: self.value@, stored_at: self.stored_at }
    }
}

/// Whether an entry stored at `stored_at` is still fresh at `now`. An entry
/// stamped in the future counts as stale.
pub open spec fn fresh_at(stored_at: u64, now: u64) -> bool {
    stored_at <= now && now - stored_at < CACHE_TTL_SECS
}

/// Index of the first entry with the given key, or -1.
pub open spec fn cache_find(m: Seq<CacheEntryModel>, key: Seq<char>) -> int
    decreases m.len(),
{
    if m.len() == 0 {
        -1
    } else if m[0].key == key {
        0
    } else {
        let i = cache_find(m.drop_first(), key);
        if i == -1 {
            -1
        } else {
            i + 1
        }
    }
}

pub proof fn lemma_cache_find(m: Seq<CacheEntryModel>, key: Seq<char>)
    ensures
        -1 <= cache_find(m, key) < m.len(),
        cache_find(m, key) >= 0 ==> m[cache_find(m, key)].key == key,
        cache_find(m, key) == -1 <==> (forall|i: int| 0 <= i < m.len() ==> m[i].key != key),
        forall|j: int| 0 <= j < cache_find(m, key) ==> m[j].key != key,
    decreases m.len(),
{
    if m.len() == 0 {
    } else if m[0].key == key {
    } else {
        lemma_cache_find(m.drop_first(), key);
        assert(forall|j: int| 0 < j < m.len() ==> m[j] == m.drop_first()[j - 1]);
        if cache_find(m, key) == -1 {
            assert forall|i: int| 0 <= i < m.len() implies m[i].key != key by {
                if i > 0 {
                    assert(m.drop_first()[i - 1] == m[i]);
                }
            }
        }
    }
}

/// If `i` is the first index carrying `key`, it is what `cache_find`
/// returns.
pub proof fn lemma_cache_find_first(m: Seq<CacheEntryModel>, key: Seq<char>, i: int)
    requires
        0 <= i < m.len(),
        m[i].key == key,
        forall|j: int| 0 <= j < i ==> m[j].key != key,
    ensures
        cache_find(m, key) == i,
    decreases m.len(),
{
    if i == 0 {
    } else {
        assert(forall|j: int| 0 <= j < m.len() - 1 ==> m.drop_first()[j] == m[j + 1]);
        lemma_cache_find_first(m.drop_first(), key, i - 1);
    }
}

/// The cache: at most one entry per key.
pub struct Cache {
    entries: Vec<CacheEntry>,
}

impl View for Cache {
    type V = Seq<CacheEntryModel>;

    closed spec fn view(&self) -> Seq<CacheEntryModel> {
        self.entries@.map_values(|e: CacheEntry| e@)
    }
}

impl Cache {
    /// Cache invariant: keys are unique.
    pub open spec fn wf(self) -> bool {
        forall|i: int, j: int| 0 <= i < j < self@.len() ==> self@[i].key != self@[j].key
    }

    /// An empty cache.
    pub fn new() -> (r: Cache)
        ensures
            r@ == Seq::<CacheEntryModel>::empty(),
            r.wf(),
    {
        let r = Cache { entries: Vec::new() };
        assert(r@ =~= Seq::<CacheEntryModel>::empty());
        r
    }

    /// Index of the entry for `key`, if any.
    fn find(&self, key: &str) -> (r: Option<usize>)
        ensures
            match r {
                Some(i) => i == cache_find(self@, key@) && i < self@.len(),
                None => cache_find(self@, key@) == -1,
            },
    {
        let needle: String = key.to_owned();
        let n = self.entries.len();
        let mut i: usize = 0;
        while i < n
            invariant
                n == self@.len(),
                i <= n,
                needle@ == key@,
                forall|j: int| 0 <= j < i ==> self@[j].key != key@,
            decreases n - i,
        {
            if self.entries[i].key == needle {
                proof {
                    lemma_cache_find_first(self@, key@, i as int);
                }
                return Some(i);
            }
            i = i + 1;
        }
        proof {
            lemma_cache_find(self@, key@);
        }
        None
    }

    /// The value stored under `key`, provided it is still fresh at `now`:
    /// a stale or missing entry is absence.
    pub fn get(&self, key: &str, now: u64) -> (r: Option<String>)
        ensures
            match r {
                Some(v) => ({
                    let i = cache_find(self@, key@);
                    i >= 0 && fresh_at(self@[i].stored_at, now) && v@ == self@[i].value
                }),
                None => ({
                    let i = cache_find(self@, key@);
                    i == -1 || !fresh_at(self@[i].stored_at, now)
                }),
            },
    {
        match self.find(key) {
            None => None,
            Some(i) => {
                let e = &self.entries[i];
                if e.stored_at <= now && now - e.stored_at < CACHE_TTL_SECS {
                    Some(e.value.clone())
                } else {
                    None
                }
            },
        }
    }

    /// Stores `value` under `key`, stamped `now`, replacing any previous
    /// entry for that key.
    pub fn set(&mut self, key: &str, value: &str, now: u64)
        requires
            old(self).wf(),
        ensures
            final(self).wf(),
            ({
                let i = cache_find(old(self)@, key@);
                let e = CacheEntryModel { key: key@, value: value@, stored_at: now };
                if i >= 0 {
                    final(self)@ == old(self)@.update(i, e)
                } else {
                    final(self)@ == old(self)@.push(e)
                }
            }),
    {
        let entry = CacheEntry { key: key.to_owned(), value: value.to_owned(), stored_at: now };
        let found = self.find(key);
        proof {
            lemma_cache_find(old(self)@, key@);
        }
        match found {
            Some(i) => {
                self.entries[i] = entry;
                assert(self@ =~= old(self)@.update(
                    cache_find(old(self)@, key@),
                    CacheEntryModel { key: key@, value: value@, stored_at: now },
                ));
            },
            None => {
                self.entries.push(entry);
                assert(self@ =~= old(self)@.push(
                    CacheEntryModel { key: key@, value: value@, stored_at: now },
                ));
            },
        }
    }

    /// Removes every entry.
    pub fn clear(&mut self)
        ensures
            final(self)@ == Seq::<CacheEntryModel>::empty(),
            final(self).wf(),
    {
        self.entries.clear();
        assert(self@ =~= Seq::<CacheEntryModel>::empty());
    }

    /// Number of entries, fresh or stale.
    pub fn size(&self) -> (n: usize)
        ensures
            n == self@.len(),
    {
        self.entries.len()
    }
}

} // verus!
