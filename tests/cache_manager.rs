use data_explorer::cache::{CacheManager, CACHE_EXPIRY_SECONDS};
use data_explorer::codec::{table_from_document, table_to_document, tables_from_document, tables_to_document, Cell};
use data_explorer::error::MetadataError;
use data_explorer::model::{ColumnInfo, TableInfo};
use data_explorer::source::DataSource;
use data_explorer::store::{init_db, Database, MetadataCache};

fn source(id: i64, database: Option<&str>) -> DataSource {
    DataSource {
        id,
        context_id: 1,
        name: "warehouse".to_string(),
        data_type: "postgresql".to_string(),
        host: "db.local".to_string(),
        port: 5432,
        database: database.map(|s| s.to_string()),
        username: "reader".to_string(),
        password: "pw".to_string(),
        proxy_type: None,
        proxy_config: None,
        ssh_config: None,
        schema_registry_url: None,
        created_at: 0,
        updated_at: 0,
    }
}

fn orders() -> TableInfo {
    TableInfo {
        name: "orders".to_string(),
        schema: Some("public".to_string()),
        row_count: Some(12),
        columns: vec![
            ColumnInfo {
                name: "id".to_string(),
                data_type: "integer".to_string(),
                is_nullable: false,
                default_value: Some("nextval('orders_id_seq')".to_string()),
                constraints: vec!["PRIMARY KEY".to_string(), "UNIQUE".to_string()],
            },
            ColumnInfo {
                name: "note".to_string(),
                data_type: "text".to_string(),
                is_nullable: true,
                default_value: None,
                constraints: vec![],
            },
        ],
    }
}

/// Runs a read-through of the table list, counting backend fetches.
fn get_tables(m: &mut CacheManager, ds: &DataSource, force: bool, now: i64, fetches: &mut u32) -> Vec<TableInfo> {
    if let Some(t) = m.cached_tables(ds, force, now) {
        return t;
    }
    *fetches += 1;
    m.record_tables(ds, Ok(vec![orders()]), now).unwrap()
}

#[test]
fn table_encoding_round_trips() {
    let t = orders();
    let d = table_to_document(&t);
    assert_eq!(table_from_document(&d), Some(t));
    let empty = TableInfo { name: String::new(), schema: None, row_count: None, columns: vec![] };
    assert_eq!(table_from_document(&table_to_document(&empty)), Some(empty));
}

#[test]
fn table_list_encoding_round_trips() {
    let ts = vec![orders(), orders()];
    assert_eq!(tables_from_document(&tables_to_document(&ts)), Some(ts));
    assert_eq!(tables_from_document(&tables_to_document(&vec![])), Some(vec![]));
}

#[test]
fn malformed_documents_do_not_decode() {
    assert_eq!(table_from_document(&vec![]), None);
    assert_eq!(table_from_document(&vec![Cell::Int(3)]), None);
    let mut d = table_to_document(&orders());
    d.push(Cell::Null);
    assert_eq!(table_from_document(&d), None);
    let mut d = table_to_document(&orders());
    d.pop();
    assert_eq!(table_from_document(&d), None);
}

#[test]
fn cold_cache_fetches_once_and_writes_once() {
    let mut m = CacheManager::new(init_db());
    let ds = source(1, Some("shop"));
    let mut fetches = 0;
    assert!(m.store().get_metadata_cache(1, "tables", "tables:shop", 10).is_none());
    let t = get_tables(&mut m, &ds, false, 10, &mut fetches);
    assert_eq!(fetches, 1);
    assert_eq!(t, vec![orders()]);
    let e = m.store().get_metadata_cache(1, "tables", "tables:shop", 10).unwrap();
    assert_eq!(e.cached_at, 10);
    assert_eq!(e.expires_at, Some(10 + CACHE_EXPIRY_SECONDS));
    let again = get_tables(&mut m, &ds, false, 11, &mut fetches);
    assert_eq!(fetches, 1);
    assert_eq!(again, t);
}

#[test]
fn refresh_forces_a_fetch_before_expiry() {
    let mut m = CacheManager::new(init_db());
    let ds = source(4, None);
    let mut fetches = 0;
    get_tables(&mut m, &ds, false, 100, &mut fetches);
    assert_eq!(fetches, 1);
    m.clear_cache(4, Some("tables"));
    get_tables(&mut m, &ds, false, 101, &mut fetches);
    assert_eq!(fetches, 2);
    get_tables(&mut m, &ds, true, 102, &mut fetches);
    assert_eq!(fetches, 3);
}

#[test]
fn undecodable_payload_is_a_miss_and_is_replaced() {
    let mut db = Database::new();
    let key = CacheManager::table_structure_cache_key(Some("public"), "orders");
    assert_eq!(key, "table_structure:public:orders");
    db.save_metadata_cache(
        MetadataCache {
            data_source_id: 2,
            cache_type: "table_structure".to_string(),
            cache_key: key.clone(),
            cache_data: vec![Cell::Flag(true)],
            cached_at: 0,
            expires_at: None,
        },
        5,
    );
    let mut m = CacheManager::new(db);
    let ds = source(2, None);
    assert_eq!(m.cached_table_structure(&ds, Some("public"), "orders", false, 6), None);
    let t = m.record_table_structure(&ds, Some("public"), "orders", Ok(orders()), 6).unwrap();
    assert_eq!(t, orders());
    let e = m.store().get_metadata_cache(2, "table_structure", &key, 7).unwrap();
    assert_eq!(e.cache_data, table_to_document(&orders()));
    assert_eq!(m.cached_table_structure(&ds, Some("public"), "orders", false, 7), Some(orders()));
}

#[test]
fn repeated_structure_lookups_agree_without_fetching() {
    let mut m = CacheManager::new(init_db());
    let ds = source(3, None);
    m.record_table_structure(&ds, None, "orders", Ok(orders()), 50).unwrap();
    let first = m.cached_table_structure(&ds, None, "orders", false, 60);
    let second = m.cached_table_structure(&ds, None, "orders", false, 70);
    assert_eq!(first, Some(orders()));
    assert_eq!(first, second);
    assert_eq!(m.cached_table_structure(&ds, None, "orders", true, 70), None);
}

#[test]
fn failed_fetch_leaves_the_cache_untouched() {
    let mut m = CacheManager::new(init_db());
    let ds = source(5, None);
    m.record_table_structure(&ds, None, "orders", Ok(orders()), 1).unwrap();
    let e = MetadataError::FetchFailed("boom".to_string());
    let r = m.record_table_structure(&ds, None, "orders", Err(e.clone()), 2);
    assert_eq!(r, Err(e));
    let kept = m.store().get_metadata_cache(5, "table_structure", "table_structure:default:orders", 3).unwrap();
    assert_eq!(kept.cached_at, 1);
}

#[test]
fn cache_keys_follow_the_documented_shape() {
    assert_eq!(CacheManager::tables_cache_key(&source(1, Some("shop"))), "tables:shop");
    assert_eq!(CacheManager::tables_cache_key(&source(1, None)), "tables:default");
    assert_eq!(CacheManager::table_structure_cache_key(None, "x"), "table_structure:default:x");
}

#[test]
fn cached_entries_expire_after_a_day() {
    let mut m = CacheManager::new(init_db());
    let ds = source(6, None);
    m.record_table_structure(&ds, None, "orders", Ok(orders()), 1000).unwrap();
    let end = 1000 + CACHE_EXPIRY_SECONDS;
    assert!(m.cached_table_structure(&ds, None, "orders", false, end - 1).is_some());
    assert!(m.cached_table_structure(&ds, None, "orders", false, end).is_none());
}
