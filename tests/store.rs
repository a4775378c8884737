use data_explorer::codec::Cell;
use data_explorer::store::{Database, MetadataCache};

fn entry(source: i64, kind: &str, key: &str, payload: i64, expires_at: Option<i64>) -> MetadataCache {
    MetadataCache {
        data_source_id: source,
        cache_type: kind.to_string(),
        cache_key: key.to_string(),
        cache_data: vec![Cell::Int(payload)],
        cached_at: 0,
        expires_at,
    }
}

#[test]
fn entry_is_visible_until_its_expiry_time() {
    let mut db = Database::new();
    db.save_metadata_cache(entry(1, "tables", "k", 1, Some(100)), 10);
    assert!(db.get_metadata_cache(1, "tables", "k", 10).is_some());
    assert!(db.get_metadata_cache(1, "tables", "k", 99).is_some());
    assert!(db.get_metadata_cache(1, "tables", "k", 100).is_none());
    assert!(db.get_metadata_cache(1, "tables", "k", 101).is_none());
}

#[test]
fn entry_without_expiry_never_expires() {
    let mut db = Database::new();
    db.save_metadata_cache(entry(1, "tables", "k", 1, None), 10);
    assert!(db.get_metadata_cache(1, "tables", "k", i64::MAX).is_some());
}

#[test]
fn second_write_under_one_key_replaces_the_first() {
    let mut db = Database::new();
    db.save_metadata_cache(entry(1, "tables", "k", 1, Some(500)), 10);
    db.save_metadata_cache(entry(1, "tables", "k", 2, Some(600)), 20);
    let e = db.get_metadata_cache(1, "tables", "k", 30).unwrap();
    assert_eq!(e.cache_data, vec![Cell::Int(2)]);
    assert_eq!(e.cached_at, 20);
    assert_eq!(e.expires_at, Some(600));
    db.delete_metadata_cache(1, Some("tables"));
    assert!(db.get_metadata_cache(1, "tables", "k", 30).is_none());
}

#[test]
fn keys_differ_in_each_part() {
    let mut db = Database::new();
    db.save_metadata_cache(entry(1, "tables", "k", 1, None), 0);
    db.save_metadata_cache(entry(2, "tables", "k", 2, None), 0);
    db.save_metadata_cache(entry(1, "topics", "k", 3, None), 0);
    db.save_metadata_cache(entry(1, "tables", "j", 4, None), 0);
    assert_eq!(db.get_metadata_cache(1, "tables", "k", 0).unwrap().cache_data, vec![Cell::Int(1)]);
    assert_eq!(db.get_metadata_cache(2, "tables", "k", 0).unwrap().cache_data, vec![Cell::Int(2)]);
    assert_eq!(db.get_metadata_cache(1, "topics", "k", 0).unwrap().cache_data, vec![Cell::Int(3)]);
    assert_eq!(db.get_metadata_cache(1, "tables", "j", 0).unwrap().cache_data, vec![Cell::Int(4)]);
}

#[test]
fn delete_is_scoped_to_source_and_type() {
    let mut db = Database::new();
    db.save_metadata_cache(entry(1, "tables", "a", 1, None), 0);
    db.save_metadata_cache(entry(1, "topics", "b", 2, None), 0);
    db.save_metadata_cache(entry(2, "tables", "a", 3, None), 0);
    db.delete_metadata_cache(1, Some("tables"));
    assert!(db.get_metadata_cache(1, "tables", "a", 0).is_none());
    assert!(db.get_metadata_cache(1, "topics", "b", 0).is_some());
    assert!(db.get_metadata_cache(2, "tables", "a", 0).is_some());
    db.delete_metadata_cache(1, None);
    assert!(db.get_metadata_cache(1, "topics", "b", 0).is_none());
    assert!(db.get_metadata_cache(2, "tables", "a", 0).is_some());
}

#[test]
fn expired_entry_is_kept_until_replaced() {
    let mut db = Database::new();
    db.save_metadata_cache(entry(1, "tables", "k", 1, Some(5)), 0);
    assert!(db.get_metadata_cache(1, "tables", "k", 6).is_none());
    assert!(db.get_metadata_cache(1, "tables", "k", 4).is_some());
}
