//! Time-limited caches of looked-up names and profiles: an entry is handed
//! out until its expiry passes, and storing a key again replaces its entry.
use vstd::prelude::*;

verus! {

/// A value stored under a key until an instant (milliseconds).
pub struct CacheEntry<V> {
    pub key: String,
    pub value: V,
    pub expires_at_millis: i64,
}

/// A cache keyed by strings; each key is stored at most once.
pub struct TtlCache<V> {
    entries: Vec<CacheEntry<V>>,
}

/// The stored values and expiries by key, for entries with distinct keys.
pub open spec fn entries_map<V>(s: Seq<CacheEntry<V>>) -> Map<Seq<char>, (V, i64)>
    decreases s.len(),
{
    if s.len() == 0 {
        Map::empty()
    } else {
        entries_map(s.drop_last()).insert(
            s.last().key@,
            (s.last().value, s.last().expires_at_millis),
        )
    }
}

pub open spec fn distinct_keys<V>(s: Seq<CacheEntry<V>>) -> bool {
    forall|i: int, j: int| 0 <= i < j < s.len() ==> #[trigger] s[i].key@ != #[trigger] s[j].key@
}

/// What a lookup at `now` gives: the value while its expiry lies ahead.
pub open spec fn fresh_value<V>(m: Map<Seq<char>, (V, i64)>, key: Seq<char>, now: i64) -> Option<V> {
    if m.dom().contains(key) && m[key].1 > now {
        Some(m[key].0)
    } else {
        None
    }
}

/// The expiry of an entry stored at `now` for `ttl_seconds`.
pub open spec fn expiry(now: i64, ttl_seconds: u64) -> int {
    now + ttl_seconds * 1000
}

proof fn lemma_entries_map<V>(s: Seq<CacheEntry<V>>)
    requires
        distinct_keys(s),
    ensures
        forall|k: Seq<char>|
            #[trigger] entries_map(s).dom().contains(k) <==> exists|i: int|
                0 <= i < s.len() && s[i].key@ == k,
        forall|i: int|
            0 <= i < s.len() ==> #[trigger] entries_map(s)[s[i].key@] == (
                s[i].value,
                s[i].expires_at_millis,
            ),
    decreases s.len(),
{
    if s.len() > 0 {
        let t = s.drop_last();
        let n = s.len() - 1;
        assert(distinct_keys(t));
        lemma_entries_map(t);
        assert(s.last() == s[n]);
        assert(entries_map(s) == entries_map(t).insert(s[n].key@, (s[n].value, s[n].expires_at_millis)));
        assert(forall|i: int| 0 <= i < n ==> #[trigger] t[i] == s[i]);
        assert forall|k: Seq<char>|
            #[trigger] entries_map(s).dom().contains(k) <==> exists|i: int|
                0 <= i < s.len() && s[i].key@ == k by {
            if entries_map(s).dom().contains(k) && k != s.last().key@ {
                assert(entries_map(t).dom().contains(k));
                let i = choose|i: int| 0 <= i < t.len() && t[i].key@ == k;
                assert(s[i].key@ == k);
            }
            if k == s.last().key@ {
                assert(s[s.len() - 1].key@ == k);
            }
            if exists|i: int| 0 <= i < s.len() && s[i].key@ == k {
                let i = choose|i: int| 0 <= i < s.len() && s[i].key@ == k;
                if i < s.len() - 1 {
                    assert(t[i].key@ == k);
                }
            }
        }
        assert forall|i: int| 0 <= i < s.len() implies #[trigger] entries_map(s)[s[i].key@] == (
            s[i].value,
            s[i].expires_at_millis,
        ) by {
            if i < s.len() - 1 {
                assert(s[i].key@ != s[s.len() - 1].key@);
                assert(t[i] == s[i]);
            }
        }
    }
}

impl<V> TtlCache<V> {
    #[verifier::type_invariant]
    spec fn keys_distinct(self) -> bool {
        distinct_keys(self.entries@)
    }

    /// The stored values and their expiries by key.
    pub closed spec fn view(self) -> Map<Seq<char>, (V, i64)> {
        entries_map(self.entries@)
    }

    /// An empty cache.
    pub fn new() -> (r: Self)
        ensures
            r.view() == Map::<Seq<char>, (V, i64)>::empty(),
    {
        TtlCache { entries: Vec::new() }
    }

    fn position(&self, key: &str) -> (r: Option<usize>)
        ensures
            match r {
                Some(i) => i < self.entries@.len() && self.entries@[i as int].key@ == key@,
                None => forall|i: int|
                    0 <= i < self.entries@.len() ==> #[trigger] self.entries@[i].key@ != key@,
            },
    {
        let mut i: usize = 0;
        while i < self.entries.len()
            invariant
                i <= self.entries@.len(),
                forall|t: int| 0 <= t < i ==> #[trigger] self.entries@[t].key@ != key@,
            decreases self.entries@.len() - i,
        {
            if crate::text::str_eq(self.entries[i].key.as_str(), key) {
                return Some(i);
            }
            i = i + 1;
        }
        None
    }

    /// The value stored under `key`, while its expiry lies after `now_millis`.
    pub fn get(&self, key: &str, now_millis: i64) -> (r: Option<&V>)
        ensures
            match fresh_value(self.view(), key@, now_millis) {
                Some(v) => r matches Some(x) && *x == v,
                None => r is None,
            },
    {
        proof {
            use_type_invariant(self);
            lemma_entries_map(self.entries@);
        }
        match self.position(key) {
            Some(i) => {
                let e = &self.entries[i];
                if e.expires_at_millis > now_millis {
                    Some(&e.value)
                } else {
                    None
                }
            },
            None => {
                assert(!self.view().dom().contains(key@));
                None
            },
        }
    }

    /// Stores `value` under `key` until `ttl_seconds` after `now_millis`,
    /// replacing what the key held.
    pub fn set(&mut self, key: String, value: V, now_millis: i64, ttl_seconds: u64)
        requires
            expiry(now_millis, ttl_seconds) <= i64::MAX,
        ensures
            final(self).view() == old(self).view().insert(
                key@,
                (value, expiry(now_millis, ttl_seconds) as i64),
            ),
    {
        proof {
            use_type_invariant(&*self);
            lemma_entries_map(self.entries@);
        }
        let wide: i128 = now_millis as i128 + (ttl_seconds as i128) * 1000;
        let expires_at_millis: i64 = wide as i64;
        let ghost old_map = self.view();
        let ghost kv = key@;
        let entry = CacheEntry { key, value, expires_at_millis };
        let found = self.position(entry.key.as_str());
        let mut entries: Vec<CacheEntry<V>> = Vec::new();
        std::mem::swap(&mut entries, &mut self.entries);
        match found {
            Some(i) => {
                let ghost before = entries@;
                let ghost after = before.update(i as int, entry);
                assert(distinct_keys(after)) by {
                    assert forall|a: int, b: int| 0 <= a < b < after.len() implies #[trigger] after[a].key@
                        != #[trigger] after[b].key@ by {
                        if a != i && b != i {
                            assert(after[a] == before[a] && after[b] == before[b]);
                        } else if a == i {
                            assert(after[b] == before[b]);
                        } else {
                            assert(after[a] == before[a]);
                        }
                    }
                }
                let ghost nv = (entry.value, expires_at_millis);
                proof {
                    lemma_entries_map(after);
                    assert forall|k: Seq<char>| #[trigger] entries_map(after).dom().contains(k)
                        == old_map.insert(kv, nv).dom().contains(k) by {
                        if entries_map(after).dom().contains(k) {
                            let j = choose|j: int| 0 <= j < after.len() && after[j].key@ == k;
                            if j != i {
                                assert(before[j].key@ == k);
                            }
                        }
                        if old_map.dom().contains(k) {
                            let j = choose|j: int| 0 <= j < before.len() && before[j].key@ == k;
                            if j != i {
                                assert(after[j].key@ == k);
                            }
                        }
                        if k == kv {
                            assert(after[i as int].key@ == kv);
                        }
                    }
                    assert forall|k: Seq<char>| #[trigger] entries_map(after).dom().contains(k)
                        implies entries_map(after)[k] == old_map.insert(kv, nv)[k] by {
                        let j = choose|j: int| 0 <= j < after.len() && after[j].key@ == k;
                        if j != i {
                            assert(after[j] == before[j]);
                            assert(before[i as int].key@ == kv);
                        }
                    }
                }
                assert(entries_map(after) =~= old_map.insert(kv, nv));
                entries.set(i, entry);
                self.entries = entries;
            },
            None => {
                let ghost after = entries@.push(entry);
                assert(after.drop_last() == entries@);
                assert(distinct_keys(after));
                entries.push(entry);
                self.entries = entries;
            },
        }
    }
}

/// A stored entry is handed out until its expiry, and only its own key is
/// changed by storing it.
pub proof fn law_read_after_write<V>(
    m: Map<Seq<char>, (V, i64)>,
    key: Seq<char>,
    value: V,
    expires: i64,
    other: Seq<char>,
    now: i64,
)
    ensures
        fresh_value(m.insert(key, (value, expires)), key, now) == if expires > now {
            Some(value)
        } else {
            None
        },
        other != key ==> fresh_value(m.insert(key, (value, expires)), other, now) == fresh_value(
            m,
            other,
            now,
        ),
{
}

} // verus!
