//! The cache store: timestamped, optionally expiring documents keyed by
//! source id, cache type and cache key.
use vstd::prelude::*;
use crate::codec::{cells_view, copy_cells, Cell, CellView};

verus! {

/// One cached document. Times are seconds since the Unix epoch.
#[derive(Clone, Debug, PartialEq)]
pub struct MetadataCache {
    pub data_source_id: i64,
    pub cache_type: String,
    pub cache_key: String,
    pub cache_data: Vec<Cell>,
    pub cached_at: i64,
    pub expires_at: Option<i64>,
}

pub struct CacheEntryView {
    pub data_source_id: i64,
    pub cache_type: Seq<char>,
    pub cache_key: Seq<char>,
    pub cache_data: Seq<CellView>,
    pub cached_at: i64,
    pub expires_at: Option<i64>,
}

impl View for MetadataCache {
    type V = CacheEntryView;

    open spec fn view(&self) -> CacheEntryView {
        CacheEntryView {
            data_source_id: self.data_source_id,
            cache_type: self.cache_type@,
            cache_key: self.cache_key@,
            cache_data: cells_view(self.cache_data@),
            cached_at: self.cached_at,
            expires_at: self.expires_at,
        }
    }
}

impl MetadataCache {
    /// A copy with the same view.
    pub fn copied(&self) -> (r: MetadataCache)
        ensures
            r@ == self@,
    {
        MetadataCache {
            data_source_id: self.data_source_id,
            cache_type: self.cache_type.clone(),
            cache_key: self.cache_key.clone(),
            cache_data: copy_cells(&self.cache_data),
            cached_at: self.cached_at,
            expires_at: self.expires_at,
        }
    }
}

/// The three-part key of an entry: source id, cache type, cache key.
pub type StoreKey = (i64, Seq<char>, Seq<char>);

pub open spec fn entry_key(e: CacheEntryView) -> StoreKey {
    (e.data_source_id, e.cache_type, e.cache_key)
}

/// An entry is visible at `now` unless it has an expiry time that is not
/// after `now`.
pub open spec fn visible_at(e: CacheEntryView, now: i64) -> bool {
    match e.expires_at {
        Some(t) => now < t,
        None => true,
    }
}

/// An entry is in the scope of a clear of `source_id`, optionally narrowed
/// to one cache type.
pub open spec fn in_clear_scope(k: StoreKey, source_id: i64, cache_type: Option<Seq<char>>) -> bool {
    k.0 == source_id && match cache_type {
        Some(t) => k.1 == t,
        None => true,
    }
}

/// No two entries share a key.
pub open spec fn keys_unique(s: Seq<CacheEntryView>) -> bool {
    forall|i: int, j: int|
        0 <= i < s.len() && 0 <= j < s.len() && i != j ==> entry_key(#[trigger] s[i])
            != entry_key(#[trigger] s[j])
}

/// The entries as a map from key to entry.
pub open spec fn entries_map(s: Seq<CacheEntryView>) -> Map<StoreKey, CacheEntryView> {
    Map::new(
        |k: StoreKey| exists|i: int| 0 <= i < s.len() && entry_key(#[trigger] s[i]) == k,
        |k: StoreKey| s[choose|i: int| 0 <= i < s.len() && entry_key(#[trigger] s[i]) == k],
    )
}

proof fn lemma_entries_map_at(s: Seq<CacheEntryView>, i: int)
    requires
        keys_unique(s),
        0 <= i < s.len(),
    ensures
        entries_map(s).contains_key(entry_key(s[i])),
        entries_map(s)[entry_key(s[i])] == s[i],
{
    let k = entry_key(s[i]);
    assert(entries_map(s).dom().contains(k));
    let j = choose|j: int| 0 <= j < s.len() && entry_key(#[trigger] s[j]) == k;
    assert(j == i);
}

proof fn lemma_update_map(s: Seq<CacheEntryView>, i: int, e: CacheEntryView)
    requires
        keys_unique(s),
        0 <= i < s.len(),
        entry_key(s[i]) == entry_key(e),
    ensures
        keys_unique(s.update(i, e)),
        entries_map(s.update(i, e)) == entries_map(s).insert(entry_key(e), e),
{
    let t = s.update(i, e);
    assert forall|a: int, b: int|
        0 <= a < t.len() && 0 <= b < t.len() && a != b implies entry_key(#[trigger] t[a])
        != entry_key(#[trigger] t[b]) by {
        assert(entry_key(t[a]) == entry_key(s[a]));
        assert(entry_key(t[b]) == entry_key(s[b]));
    }
    let m = entries_map(s).insert(entry_key(e), e);
    assert forall|k: StoreKey| #[trigger] entries_map(t).contains_key(k) <==> m.contains_key(k) by {
        if entries_map(t).contains_key(k) {
            let j = choose|j: int| 0 <= j < t.len() && entry_key(#[trigger] t[j]) == k;
            if j != i {
                lemma_entries_map_at(s, j);
            }
        }
        if m.contains_key(k) && k != entry_key(e) {
            let j = choose|j: int| 0 <= j < s.len() && entry_key(#[trigger] s[j]) == k;
            assert(entry_key(t[j]) == k);
        }
        if k == entry_key(e) {
            assert(entry_key(t[i]) == k);
        }
    }
    assert forall|k: StoreKey| #[trigger] entries_map(t).contains_key(k) implies entries_map(t)[k]
        == m[k] by {
        let j = choose|j: int| 0 <= j < t.len() && entry_key(#[trigger] t[j]) == k;
        lemma_entries_map_at(t, j);
        if j != i {
            lemma_entries_map_at(s, j);
        }
    }
    assert(entries_map(t) =~= m);
}

proof fn lemma_push_map(s: Seq<CacheEntryView>, e: CacheEntryView)
    requires
        keys_unique(s),
        !entries_map(s).contains_key(entry_key(e)),
    ensures
        keys_unique(s.push(e)),
        entries_map(s.push(e)) == entries_map(s).insert(entry_key(e), e),
{
    let t = s.push(e);
    assert forall|a: int, b: int|
        0 <= a < t.len() && 0 <= b < t.len() && a != b implies entry_key(#[trigger] t[a])
        != entry_key(#[trigger] t[b]) by {
        if a < s.len() && b < s.len() {
            assert(t[a] == s[a] && t[b] == s[b]);
        } else if a < s.len() {
            assert(t[a] == s[a]);
        } else {
            assert(t[b] == s[b]);
        }
    }
    let m = entries_map(s).insert(entry_key(e), e);
    assert forall|k: StoreKey| #[trigger] entries_map(t).contains_key(k) <==> m.contains_key(k) by {
        if entries_map(t).contains_key(k) && k != entry_key(e) {
            let j = choose|j: int| 0 <= j < t.len() && entry_key(#[trigger] t[j]) == k;
            assert(t[j] == s[j]);
        }
        if m.contains_key(k) && k != entry_key(e) {
            let j = choose|j: int| 0 <= j < s.len() && entry_key(#[trigger] s[j]) == k;
            assert(t[j] == s[j]);
        }
        if k == entry_key(e) {
            assert(t[s.len() as int] == e);
        }
    }
    assert forall|k: StoreKey| #[trigger] entries_map(t).contains_key(k) implies entries_map(t)[k]
        == m[k] by {
        let j = choose|j: int| 0 <= j < t.len() && entry_key(#[trigger] t[j]) == k;
        lemma_entries_map_at(t, j);
        if j < s.len() {
            assert(t[j] == s[j]);
            lemma_entries_map_at(s, j);
        }
    }
    assert(entries_map(t) =~= m);
}

/// The store after saving `e` at time `now`.
pub open spec fn saved(m: Map<StoreKey, CacheEntryView>, e: CacheEntryView, now: i64) -> Map<
    StoreKey,
    CacheEntryView,
> {
    m.insert(entry_key(e), CacheEntryView { cached_at: now, ..e })
}

/// An entry that expires at `t` is visible to every read before `t` and to
/// none at or after `t`.
pub proof fn lemma_ttl(e: CacheEntryView, t: i64, now: i64)
    requires
        e.expires_at == Some(t),
    ensures
        now < t ==> visible_at(e, now),
        now >= t ==> !visible_at(e, now),
{
}

/// Saving two entries under one key leaves one entry under that key, the
/// second one with its caching time; the first leaves no trace.
pub proof fn lemma_replace_on_write(
    m: Map<StoreKey, CacheEntryView>,
    e1: CacheEntryView,
    now1: i64,
    e2: CacheEntryView,
    now2: i64,
)
    requires
        entry_key(e1) == entry_key(e2),
    ensures
        saved(saved(m, e1, now1), e2, now2) == saved(m, e2, now2),
        saved(saved(m, e1, now1), e2, now2).dom() == m.dom().insert(entry_key(e2)),
        saved(saved(m, e1, now1), e2, now2)[entry_key(e2)] == (CacheEntryView {
            cached_at: now2,
            ..e2
        }),
{
    assert(saved(saved(m, e1, now1), e2, now2) =~= saved(m, e2, now2));
    assert(saved(m, e2, now2).dom() =~= m.dom().insert(entry_key(e2)));
}

/// The view of an optional string slice.
pub open spec fn opt_str_ref_view(o: Option<&str>) -> Option<Seq<char>> {
    match o {
        Some(s) => Some(s@),
        None => None,
    }
}

/// An in-memory store of cached documents, at most one per key.
pub struct Database {
    entries: Vec<MetadataCache>,
}

impl View for Database {
    type V = Map<StoreKey, CacheEntryView>;

    closed spec fn view(&self) -> Map<StoreKey, CacheEntryView> {
        entries_map(self.entries_view())
    }
}

impl Database {
    spec fn entries_view(&self) -> Seq<CacheEntryView> {
        self.entries@.map_values(|e: MetadataCache| e@)
    }

    /// The store's internal invariant: keys are unique.
    pub closed spec fn wf(&self) -> bool {
        keys_unique(self.entries_view())
    }

    /// An empty store.
    pub fn new() -> (r: Database)
        ensures
            r.wf(),
            r@ == Map::<StoreKey, CacheEntryView>::empty(),
    {
        let r = Database { entries: Vec::new() };
        assert(r@ =~= Map::<StoreKey, CacheEntryView>::empty());
        r
    }

    fn position(&self, source_id: i64, cache_type: &String, cache_key: &String) -> (r: Option<usize>)
        requires
            self.wf(),
        ensures
            match r {
                Some(i) => i < self.entries.len() && entry_key(self.entries_view()[i as int]) == (
                source_id,
                cache_type@,
                cache_key@,
                ),
                None => !self@.contains_key((source_id, cache_type@, cache_key@)),
            },
    {
        let ghost k = (source_id, cache_type@, cache_key@);
        let mut i: usize = 0;
        while i < self.entries.len()
            invariant
                i <= self.entries.len(),
                k == (source_id, cache_type@, cache_key@),
                forall|j: int| 0 <= j < i ==> entry_key(#[trigger] self.entries_view()[j]) != k,
            decreases self.entries.len() - i,
        {
            let e = &self.entries[i];
            assert(self.entries_view()[i as int] == e@);
            let same_type = e.cache_type == *cache_type;
            let same_key = e.cache_key == *cache_key;
            if e.data_source_id == source_id && same_type && same_key {
                return Some(i);
            }
            i = i + 1;
        }
        None
    }

    /// The entry stored under the key, if there is one and it is visible at
    /// `now`. An expired entry is not returned, and not removed either.
    pub fn get_metadata_cache(&self, data_source_id: i64, cache_type: &str, cache_key: &str, now: i64) -> (r: Option<&MetadataCache>)
        requires
            self.wf(),
        ensures
            ({
                let k = (data_source_id, cache_type@, cache_key@);
                match r {
                    Some(e) => self@.contains_key(k) && e@ == self@[k] && visible_at(e@, now),
                    None => !(self@.contains_key(k) && visible_at(self@[k], now)),
                }
            }),
    {
        let t = cache_type.to_owned();
        let c = cache_key.to_owned();
        match self.position(data_source_id, &t, &c) {
            Some(i) => {
                proof {
                    lemma_entries_map_at(self.entries_view(), i as int);
                }
                let e = &self.entries[i];
                let live = match e.expires_at {
                    Some(t) => now < t,
                    None => true,
                };
                if live {
                    Some(e)
                } else {
                    None
                }
            },
            None => None,
        }
    }
}

/// Opens a fresh, empty metadata store, to be handed to the cache manager.
pub fn init_db() -> (r: Database)
    ensures
        r.wf(),
        r@ == Map::<StoreKey, CacheEntryView>::empty(),
{
    Database::new()
}

impl Database {
    /// Stores `entry` stamped with `now` as its caching time, replacing any
    /// entry under the same key: a write never accumulates.
    pub fn save_metadata_cache(&mut self, entry: MetadataCache, now: i64)
        requires
            old(self).wf(),
            entry.expires_at is Some ==> now <= entry.expires_at->Some_0,
        ensures
            final(self).wf(),
            final(self)@ == saved(old(self)@, entry@, now),
    {
        let mut entry = entry;
        entry.cached_at = now;
        let ghost ev = entry@;
        let ghost before = self.entries_view();
        match self.position(entry.data_source_id, &entry.cache_type, &entry.cache_key) {
            Some(i) => {
                self.entries.set(i, entry);
                proof {
                    lemma_update_map(before, i as int, ev);
                    assert(self.entries_view() =~= before.update(i as int, ev));
                }
            },
            None => {
                self.entries.push(entry);
                proof {
                    lemma_push_map(before, ev);
                    assert(self.entries_view() =~= before.push(ev));
                }
            },
        }
    }

    /// Removes every entry of the source, or only those of one cache type.
    pub fn delete_metadata_cache(&mut self, data_source_id: i64, cache_type: Option<&str>)
        requires
            old(self).wf(),
        ensures
            final(self).wf(),
            forall|k: StoreKey| #[trigger]
                final(self)@.contains_key(k) <==> old(self)@.contains_key(k) && !in_clear_scope(
                    k,
                    data_source_id,
                    opt_str_ref_view(cache_type),
                ),
            forall|k: StoreKey| #[trigger]
                final(self)@.contains_key(k) ==> final(self)@[k] == old(self)@[k],
    {
        let ghost ct = opt_str_ref_view(cache_type);
        let wanted: Option<String> = match cache_type {
            Some(t) => Some(t.to_owned()),
            None => None,
        };
        let ghost s = self.entries_view();
        let mut kept: Vec<MetadataCache> = Vec::new();
        let mut i: usize = 0;
        while i < self.entries.len()
            invariant
                i <= self.entries.len(),
                s == self.entries_view(),
                keys_unique(s),
                ct == opt_str_ref_view(cache_type),
                match wanted {
                    Some(w) => ct == Some(w@),
                    None => ct is None,
                },
                keys_unique(kept@.map_values(|e: MetadataCache| e@)),
                forall|a: int|
                    0 <= a < kept.len() ==> exists|j: int|
                        0 <= j < i && (#[trigger] kept@[a])@ == s[j] && !in_clear_scope(
                            entry_key(s[j]),
                            data_source_id,
                            ct,
                        ),
                forall|j: int|
                    0 <= j < i && !in_clear_scope(entry_key(#[trigger] s[j]), data_source_id, ct)
                        ==> exists|a: int| 0 <= a < kept.len() && kept@[a]@ == s[j],
            decreases self.entries.len() - i,
        {
            let e = &self.entries[i];
            assert(s[i as int] == e@);
            let matches_type = match &wanted {
                Some(w) => e.cache_type == *w,
                None => true,
            };
            assert(matches_type == match ct {
                Some(t) => entry_key(s[i as int]).1 == t,
                None => true,
            });
            let ghost old_kept = kept@;
            if !(e.data_source_id == data_source_id && matches_type) {
                let ghost kv = kept@.map_values(|e: MetadataCache| e@);
                proof {
                    assert forall|a: int| 0 <= a < kv.len() implies entry_key(#[trigger] kv[a])
                        != entry_key(s[i as int]) by {
                        assert(kv[a] == kept@[a]@);
                        let j = choose|j: int|
                            0 <= j < i && (#[trigger] kept@[a])@ == s[j] && !in_clear_scope(
                                entry_key(s[j]),
                                data_source_id,
                                ct,
                            );
                        assert(j != i);
                    }
                }
                kept.push(e.copied());
                proof {
                    let kv2 = kept@.map_values(|e: MetadataCache| e@);
                    assert(kv2 =~= kv.push(s[i as int]));
                    assert forall|a: int, b: int|
                        0 <= a < kv2.len() && 0 <= b < kv2.len() && a != b implies entry_key(
                        #[trigger] kv2[a],
                    ) != entry_key(#[trigger] kv2[b]) by {
                        if a < kv.len() && b < kv.len() {
                            assert(kv2[a] == kv[a] && kv2[b] == kv[b]);
                        } else if a < kv.len() {
                            assert(kv2[a] == kv[a]);
                        } else {
                            assert(kv2[b] == kv[b]);
                        }
                    }
                    assert forall|a: int| 0 <= a < kept.len() implies exists|j: int|
                        0 <= j < i + 1 && (#[trigger] kept@[a])@ == s[j] && !in_clear_scope(
                            entry_key(s[j]),
                            data_source_id,
                            ct,
                        ) by {
                        if a == kept.len() - 1 {
                            assert(kept@[a]@ == s[i as int]);
                        }
                    }
                    assert(kept@[kept.len() - 1]@ == s[i as int]);
                    assert forall|j: int|
                        0 <= j < i + 1 && !in_clear_scope(
                            entry_key(#[trigger] s[j]),
                            data_source_id,
                            ct,
                        ) implies exists|a: int| 0 <= a < kept.len() && kept@[a]@ == s[j] by {
                        if j < i {
                            let a = choose|a: int| 0 <= a < old_kept.len() && old_kept[a]@ == s[j];
                            assert(kept@[a] == old_kept[a]);
                        } else {
                            assert(kept@[kept.len() - 1]@ == s[j]);
                        }
                    }
                }
            }
            i = i + 1;
        }
        let ghost kv = kept@.map_values(|e: MetadataCache| e@);
        proof {
            assert forall|k: StoreKey| #[trigger]
                entries_map(kv).contains_key(k) <==> entries_map(s).contains_key(k)
                    && !in_clear_scope(k, data_source_id, ct) by {
                if entries_map(kv).contains_key(k) {
                    let a = choose|a: int| 0 <= a < kv.len() && entry_key(#[trigger] kv[a]) == k;
                    assert(kv[a] == kept@[a]@);
                    let j = choose|j: int|
                        0 <= j < i && (#[trigger] kept@[a])@ == s[j] && !in_clear_scope(
                            entry_key(s[j]),
                            data_source_id,
                            ct,
                        );
                    assert(entry_key(s[j]) == k);
                }
                if entries_map(s).contains_key(k) && !in_clear_scope(k, data_source_id, ct) {
                    let j = choose|j: int| 0 <= j < s.len() && entry_key(#[trigger] s[j]) == k;
                    let a = choose|a: int| 0 <= a < kept.len() && kept@[a]@ == s[j];
                    assert(kv[a] == kept@[a]@);
                }
            }
            assert forall|k: StoreKey| #[trigger]
                entries_map(kv).contains_key(k) implies entries_map(kv)[k] == entries_map(s)[k] by {
                let a = choose|a: int| 0 <= a < kv.len() && entry_key(#[trigger] kv[a]) == k;
                assert(kv[a] == kept@[a]@);
                let j = choose|j: int|
                    0 <= j < i && (#[trigger] kept@[a])@ == s[j] && !in_clear_scope(
                        entry_key(s[j]),
                        data_source_id,
                        ct,
                    );
                lemma_entries_map_at(kv, a);
                lemma_entries_map_at(s, j);
            }
        }
        self.entries = kept;
    }
}

} // verus!
