//! The cache manager: read-through caching of the metadata queries over an
//! injected store. Each query is served in two steps around the backend
//! fetch, which the caller performs: a lookup that answers from the cache
//! when it can, and a record step that stores what was fetched.
use vstd::prelude::*;
use vstd::string::*;
use crate::codec::{
    cells_view, lemma_table_round_trip, table_encodable, decode_table, decode_tables, encode_table, encode_tables, table_from_document,
    table_to_document, tables_from_document, tables_to_document, tables_view, Cell, CellView,
};
use crate::error::MetadataError;
use crate::model::{
    opt_str_view, schemas_view, topics_view, KafkaTopicInfo, SchemaInfo, SchemaView, TableInfo,
    TableView, TopicView,
};
use crate::stream_codec::{
    decode_schemas, decode_topics, encode_schemas, encode_topics, schemas_from_document,
    schemas_to_document, topics_from_document, topics_to_document,
};
use crate::source::DataSource;
use crate::store::{
    entry_key, in_clear_scope, opt_str_ref_view, saved, visible_at, CacheEntryView, Database,
    MetadataCache, StoreKey,
};

verus! {

/// How long a cached document stays visible: 24 hours, in seconds.
pub const CACHE_EXPIRY_SECONDS: i64 = 86400;

/// The expiry time of a document cached at `now`.
pub open spec fn expiry_after(now: i64) -> i64 {
    if now <= i64::MAX - CACHE_EXPIRY_SECONDS {
        (now + CACHE_EXPIRY_SECONDS) as i64
    } else {
        i64::MAX
    }
}

/// The key of the table list of a source: `tables:<database>`, with
/// `default` for a source without a database.
pub open spec fn tables_key(database: Option<Seq<char>>) -> Seq<char> {
    "tables:"@ + match database {
        Some(d) => d,
        None => "default"@,
    }
}

/// The key of one table's structure: `table_structure:<schema>:<table>`,
/// with `default` for no schema.
pub open spec fn table_structure_key(schema: Option<Seq<char>>, table_name: Seq<char>) -> Seq<char> {
    "table_structure:"@ + match schema {
        Some(s) => s,
        None => "default"@,
    } + ":"@ + table_name
}

/// The document visible under `k` at `now`, if any.
pub open spec fn cached_document(m: Map<StoreKey, CacheEntryView>, k: StoreKey, now: i64) -> Option<
    Seq<CellView>,
> {
    if m.contains_key(k) && visible_at(m[k], now) {
        Some(m[k].cache_data)
    } else {
        None
    }
}

/// The table structure that the cache answers with, if any.
pub open spec fn cached_table(m: Map<StoreKey, CacheEntryView>, k: StoreKey, now: i64) -> Option<TableView> {
    match cached_document(m, k, now) {
        Some(d) => decode_table(d),
        None => None,
    }
}

/// The table list that the cache answers with, if any.
pub open spec fn cached_tables(m: Map<StoreKey, CacheEntryView>, k: StoreKey, now: i64) -> Option<Seq<TableView>> {
    match cached_document(m, k, now) {
        Some(d) => decode_tables(d),
        None => None,
    }
}

/// The topic list that the cache answers with, if any.
pub open spec fn cached_topics(m: Map<StoreKey, CacheEntryView>, k: StoreKey, now: i64) -> Option<Seq<TopicView>> {
    match cached_document(m, k, now) {
        Some(d) => decode_topics(d),
        None => None,
    }
}

/// The registry schema list that the cache answers with, if any.
pub open spec fn cached_schemas(m: Map<StoreKey, CacheEntryView>, k: StoreKey, now: i64) -> Option<Seq<SchemaView>> {
    match cached_document(m, k, now) {
        Some(d) => decode_schemas(d),
        None => None,
    }
}

/// The entry written after a fetch at `now`.
pub open spec fn fresh_entry(k: StoreKey, doc: Seq<CellView>, now: i64) -> CacheEntryView {
    CacheEntryView {
        data_source_id: k.0,
        cache_type: k.1,
        cache_key: k.2,
        cache_data: doc,
        cached_at: now,
        expires_at: Some(expiry_after(now)),
    }
}

pub open spec fn opt_or_default(o: Option<Seq<char>>) -> Seq<char> {
    match o {
        Some(s) => s,
        None => "default"@,
    }
}

fn str_or_default(o: Option<&str>) -> (r: &str)
    ensures
        r@ == opt_or_default(opt_str_ref_view(o)),
{
    match o {
        Some(s) => s,
        None => "default",
    }
}

/// The expiry time of a document cached at `now`; it saturates at the
/// largest time.
pub fn expiry_time(now: i64) -> (r: i64)
    ensures
        r == expiry_after(now),
        r >= now,
{
    if now <= i64::MAX - CACHE_EXPIRY_SECONDS {
        now + CACHE_EXPIRY_SECONDS
    } else {
        i64::MAX
    }
}

/// Orchestrates read-through caching over the store it owns.
pub struct CacheManager {
    store: Database,
}

impl View for CacheManager {
    type V = Map<StoreKey, CacheEntryView>;

    closed spec fn view(&self) -> Map<StoreKey, CacheEntryView> {
        self.store@
    }
}

impl CacheManager {
    pub closed spec fn wf(&self) -> bool {
        self.store.wf()
    }

    /// A manager over `store`.
    pub fn new(store: Database) -> (r: CacheManager)
        requires
            store.wf(),
        ensures
            r.wf(),
            r@ == store@,
    {
        CacheManager { store }
    }

    /// The store, for reading.
    pub fn store(&self) -> (r: &Database)
        requires
            self.wf(),
        ensures
            r.wf(),
            r@ == self@,
    {
        &self.store
    }

    /// The key under which the table list of `data_source` is cached.
    pub fn tables_cache_key(data_source: &DataSource) -> (r: String)
        ensures
            r@ == tables_key(opt_str_view(data_source.database)),
    {
        let d: &str = match &data_source.database {
            Some(s) => s.as_str(),
            None => "default",
        };
        "tables:".to_owned().concat(d)
    }

    /// The key under which one table's structure is cached.
    pub fn table_structure_cache_key(schema: Option<&str>, table_name: &str) -> (r: String)
        ensures
            r@ == table_structure_key(opt_str_ref_view(schema), table_name@),
    {
        let s = str_or_default(schema);
        "table_structure:".to_owned().concat(s).concat(":").concat(table_name)
    }

    fn lookup(&self, data_source_id: i64, cache_type: &str, cache_key: &str, now: i64) -> (r: Option<&Vec<Cell>>)
        requires
            self.wf(),
        ensures
            match r {
                Some(d) => cached_document(self@, (data_source_id, cache_type@, cache_key@), now)
                    == Some(cells_view(d@)),
                None => cached_document(self@, (data_source_id, cache_type@, cache_key@), now) is None,
            },
    {
        match self.store.get_metadata_cache(data_source_id, cache_type, cache_key, now) {
            Some(e) => Some(&e.cache_data),
            None => None,
        }
    }

    fn record(&mut self, data_source_id: i64, cache_type: &str, cache_key: String, doc: Vec<Cell>, now: i64)
        requires
            old(self).wf(),
        ensures
            final(self).wf(),
            final(self)@ == saved(
                old(self)@,
                fresh_entry((data_source_id, cache_type@, cache_key@), cells_view(doc@), now),
                now,
            ),
    {
        let entry = MetadataCache {
            data_source_id,
            cache_type: cache_type.to_owned(),
            cache_key,
            cache_data: doc,
            cached_at: now,
            expires_at: Some(expiry_time(now)),
        };
        self.store.save_metadata_cache(entry, now);
    }

    /// The cached structure of the table, unless a refresh is forced. A
    /// visible entry that does not decode to a table counts as a miss.
    pub fn cached_table_structure(
        &self,
        data_source: &DataSource,
        schema: Option<&str>,
        table_name: &str,
        force_refresh: bool,
        now: i64,
    ) -> (r: Option<TableInfo>)
        requires
            self.wf(),
        ensures
            ({
                let k = (
                    data_source.id,
                    "table_structure"@,
                    table_structure_key(opt_str_ref_view(schema), table_name@),
                );
                match r {
                    Some(t) => !force_refresh && cached_table(self@, k, now) == Some(t@),
                    None => force_refresh || cached_table(self@, k, now) is None,
                }
            }),
    {
        if force_refresh {
            return None;
        }
        let key = Self::table_structure_cache_key(schema, table_name);
        match self.lookup(data_source.id, "table_structure", key.as_str(), now) {
            Some(d) => table_from_document(d),
            None => None,
        }
    }

    /// Stores a freshly fetched table structure, expiring 24 hours after
    /// `now`, and hands it back unchanged. A failed fetch is handed back and
    /// leaves the cache as it was.
    pub fn record_table_structure(
        &mut self,
        data_source: &DataSource,
        schema: Option<&str>,
        table_name: &str,
        fetched: Result<TableInfo, MetadataError>,
        now: i64,
    ) -> (r: Result<TableInfo, MetadataError>)
        requires
            old(self).wf(),
        ensures
            final(self).wf(),
            r == fetched,
            fetched is Err ==> final(self)@ == old(self)@,
            fetched is Ok ==> final(self)@ == saved(
                old(self)@,
                fresh_entry(
                    (
                        data_source.id,
                        "table_structure"@,
                        table_structure_key(opt_str_ref_view(schema), table_name@),
                    ),
                    encode_table(fetched->Ok_0@),
                    now,
                ),
                now,
            ),
    {
        match fetched {
            Ok(t) => {
                let key = Self::table_structure_cache_key(schema, table_name);
                let doc = table_to_document(&t);
                self.record(data_source.id, "table_structure", key, doc, now);
                Ok(t)
            },
            Err(e) => Err(e),
        }
    }

    /// The cached table list of the source, unless a refresh is forced. A
    /// visible entry that does not decode to a table list counts as a miss.
    pub fn cached_tables(&self, data_source: &DataSource, force_refresh: bool, now: i64) -> (r: Option<Vec<TableInfo>>)
        requires
            self.wf(),
        ensures
            ({
                let k = (data_source.id, "tables"@, tables_key(opt_str_view(data_source.database)));
                match r {
                    Some(ts) => !force_refresh && cached_tables(self@, k, now) == Some(tables_view(ts@)),
                    None => force_refresh || cached_tables(self@, k, now) is None,
                }
            }),
    {
        if force_refresh {
            return None;
        }
        let key = Self::tables_cache_key(data_source);
        match self.lookup(data_source.id, "tables", key.as_str(), now) {
            Some(d) => tables_from_document(d),
            None => None,
        }
    }

    /// Stores a freshly fetched table list, expiring 24 hours after `now`,
    /// and hands it back unchanged. A failed fetch is handed back and leaves
    /// the cache as it was.
    pub fn record_tables(
        &mut self,
        data_source: &DataSource,
        fetched: Result<Vec<TableInfo>, MetadataError>,
        now: i64,
    ) -> (r: Result<Vec<TableInfo>, MetadataError>)
        requires
            old(self).wf(),
        ensures
            final(self).wf(),
            r == fetched,
            fetched is Err ==> final(self)@ == old(self)@,
            fetched is Ok ==> final(self)@ == saved(
                old(self)@,
                fresh_entry(
                    (data_source.id, "tables"@, tables_key(opt_str_view(data_source.database))),
                    encode_tables(tables_view(fetched->Ok_0@)),
                    now,
                ),
                now,
            ),
    {
        match fetched {
            Ok(ts) => {
                let key = Self::tables_cache_key(data_source);
                let doc = tables_to_document(&ts);
                self.record(data_source.id, "tables", key, doc, now);
                Ok(ts)
            },
            Err(e) => Err(e),
        }
    }

    /// The cached topic list of the source, unless a refresh is forced. A
    /// visible entry that does not decode to a topic list counts as a miss.
    pub fn cached_kafka_topics(&self, data_source: &DataSource, force_refresh: bool, now: i64) -> (r: Option<Vec<KafkaTopicInfo>>)
        requires
            self.wf(),
        ensures
            ({
                let k = (data_source.id, "topics"@, "topics"@);
                match r {
                    Some(ts) => !force_refresh && cached_topics(self@, k, now) == Some(topics_view(ts@)),
                    None => force_refresh || cached_topics(self@, k, now) is None,
                }
            }),
    {
        if force_refresh {
            return None;
        }
        match self.lookup(data_source.id, "topics", "topics", now) {
            Some(d) => topics_from_document(d),
            None => None,
        }
    }

    /// Stores a freshly fetched topic list, expiring 24 hours after `now`,
    /// and hands it back unchanged. A failed fetch is handed back and leaves
    /// the cache as it was.
    pub fn record_kafka_topics(
        &mut self,
        data_source: &DataSource,
        fetched: Result<Vec<KafkaTopicInfo>, MetadataError>,
        now: i64,
    ) -> (r: Result<Vec<KafkaTopicInfo>, MetadataError>)
        requires
            old(self).wf(),
        ensures
            final(self).wf(),
            r == fetched,
            fetched is Err ==> final(self)@ == old(self)@,
            fetched is Ok ==> final(self)@ == saved(
                old(self)@,
                fresh_entry(
                    (data_source.id, "topics"@, "topics"@),
                    encode_topics(topics_view(fetched->Ok_0@)),
                    now,
                ),
                now,
            ),
    {
        match fetched {
            Ok(ts) => {
                let doc = topics_to_document(&ts);
                self.record(data_source.id, "topics", "topics".to_owned(), doc, now);
                Ok(ts)
            },
            Err(e) => Err(e),
        }
    }

    /// The cached registry schemas of the source, unless a refresh is
    /// forced. A visible entry that does not decode to a schema list counts
    /// as a miss.
    pub fn cached_registry_schemas(&self, data_source: &DataSource, force_refresh: bool, now: i64) -> (r: Option<Vec<SchemaInfo>>)
        requires
            self.wf(),
        ensures
            ({
                let k = (data_source.id, "schemas"@, "schemas"@);
                match r {
                    Some(ss) => !force_refresh && cached_schemas(self@, k, now) == Some(schemas_view(ss@)),
                    None => force_refresh || cached_schemas(self@, k, now) is None,
                }
            }),
    {
        if force_refresh {
            return None;
        }
        match self.lookup(data_source.id, "schemas", "schemas", now) {
            Some(d) => schemas_from_document(d),
            None => None,
        }
    }

    /// Stores freshly fetched registry schemas, expiring 24 hours after
    /// `now`, and hands them back unchanged. A failed fetch is handed back
    /// and leaves the cache as it was.
    pub fn record_registry_schemas(
        &mut self,
        data_source: &DataSource,
        fetched: Result<Vec<SchemaInfo>, MetadataError>,
        now: i64,
    ) -> (r: Result<Vec<SchemaInfo>, MetadataError>)
        requires
            old(self).wf(),
        ensures
            final(self).wf(),
            r == fetched,
            fetched is Err ==> final(self)@ == old(self)@,
            fetched is Ok ==> final(self)@ == saved(
                old(self)@,
                fresh_entry(
                    (data_source.id, "schemas"@, "schemas"@),
                    encode_schemas(schemas_view(fetched->Ok_0@)),
                    now,
                ),
                now,
            ),
    {
        match fetched {
            Ok(ss) => {
                let doc = schemas_to_document(&ss);
                self.record(data_source.id, "schemas", "schemas".to_owned(), doc, now);
                Ok(ss)
            },
            Err(e) => Err(e),
        }
    }

    /// Invalidates every cached document of the source, or only those of
    /// one cache type.
    pub fn clear_cache(&mut self, data_source_id: i64, cache_type: Option<&str>)
        requires
            old(self).wf(),
        ensures
            final(self).wf(),
            forall|k: StoreKey| #[trigger]
                final(self)@.contains_key(k) <==> old(self)@.contains_key(k) && !in_clear_scope(
                    k,
                    data_source_id,
                    opt_str_ref_view(cache_type),
                ),
            forall|k: StoreKey| #[trigger]
                final(self)@.contains_key(k) ==> final(self)@[k] == old(self)@[k],
    {
        self.store.delete_metadata_cache(data_source_id, cache_type);
    }
}

/// A cache hit stays the same hit for every later read before the entry
/// expires, as long as nothing is written in between: reading twice gives
/// the same table and needs no fetch.
pub proof fn lemma_hit_is_stable(m: Map<StoreKey, CacheEntryView>, k: StoreKey, t1: i64, t2: i64)
    requires
        cached_table(m, k, t1) is Some,
        t1 <= t2,
        m[k].expires_at is Some ==> t2 < m[k].expires_at->Some_0,
    ensures
        cached_table(m, k, t2) == cached_table(m, k, t1),
{
}

/// After a table is recorded at `now`, every read of its key before the
/// entry expires is a hit that returns that table.
pub proof fn lemma_recorded_table_is_served(
    m: Map<StoreKey, CacheEntryView>,
    k: StoreKey,
    t: TableView,
    now: i64,
    later: i64,
)
    requires
        table_encodable(t),
        later < expiry_after(now),
    ensures
        cached_table(saved(m, fresh_entry(k, encode_table(t), now), now), k, later) == Some(t),
{
    lemma_table_round_trip(t);
    assert(entry_key(fresh_entry(k, encode_table(t), now)) == k);
}

/// A key in the scope of a clear is a miss afterwards, however far its
/// entry was from expiry: the next read fetches.
pub proof fn lemma_cleared_key_misses(
    before: Map<StoreKey, CacheEntryView>,
    after: Map<StoreKey, CacheEntryView>,
    source_id: i64,
    cache_type: Option<Seq<char>>,
    k: StoreKey,
    now: i64,
)
    requires
        forall|j: StoreKey| #[trigger]
            after.contains_key(j) <==> before.contains_key(j) && !in_clear_scope(
                j,
                source_id,
                cache_type,
            ),
        in_clear_scope(k, source_id, cache_type),
    ensures
        cached_document(after, k, now) is None,
{
    assert(!after.contains_key(k));
}

} // verus!
