use data_explorer::import::{choose_import_context, ContextChoice, ContextRef};
use data_explorer::adapters::{
    column_with_constraint_text, fetched_table, split_constraints, MySQLMetadata, PostgreSQLMetadata,
    SQLServerMetadata,
};
use data_explorer::connection::{decimal_text, KafkaConnector, MySQLConnector, PostgreSQLConnector, ProxyManager};
use data_explorer::error::MetadataError;
use data_explorer::fetcher::MetadataFetcher;
use data_explorer::model::TableInfo;
use data_explorer::registry::{KafkaMetadata, SubjectLookup};
use data_explorer::source::{BackendKind, DataSource, ProxyConfig};
use data_explorer::model::SchemaInfo;

fn source(kind: &str) -> DataSource {
    DataSource {
        id: 9,
        context_id: 1,
        name: "src".to_string(),
        data_type: kind.to_string(),
        host: "h".to_string(),
        port: 3306,
        database: Some("shop".to_string()),
        username: "u".to_string(),
        password: "p".to_string(),
        proxy_type: None,
        proxy_config: None,
        ssh_config: None,
        schema_registry_url: None,
        created_at: 0,
        updated_at: 0,
    }
}

fn proxy(user: Option<&str>, pass: Option<&str>) -> ProxyConfig {
    ProxyConfig {
        proxy_type: "http".to_string(),
        host: "proxy".to_string(),
        port: 8080,
        username: user.map(|s| s.to_string()),
        password: pass.map(|s| s.to_string()),
    }
}

#[test]
fn backend_kinds_parse_and_unknown_kinds_are_refused() {
    assert_eq!(BackendKind::parse("mysql").unwrap(), BackendKind::MySql);
    assert_eq!(BackendKind::parse("postgresql").unwrap(), BackendKind::PostgreSql);
    assert_eq!(BackendKind::parse("sqlserver").unwrap(), BackendKind::SqlServer);
    assert_eq!(BackendKind::parse("kafka").unwrap(), BackendKind::Kafka);
    assert!(matches!(BackendKind::parse("oracle"), Err(MetadataError::UnsupportedBackend(_))));
    assert!(matches!(BackendKind::parse("MySQL"), Err(MetadataError::UnsupportedBackend(_))));
}

#[test]
fn table_fetches_go_to_relational_backends_only() {
    assert_eq!(MetadataFetcher::table_backend(&source("mysql")).unwrap(), BackendKind::MySql);
    assert!(matches!(
        MetadataFetcher::table_backend(&source("kafka")),
        Err(MetadataError::UnsupportedOperation(_))
    ));
    assert!(matches!(
        MetadataFetcher::table_backend(&source("mongo")),
        Err(MetadataError::UnsupportedBackend(_))
    ));
    assert_eq!(MetadataFetcher::topic_backend(&source("kafka")).unwrap(), BackendKind::Kafka);
    assert!(matches!(
        MetadataFetcher::topic_backend(&source("sqlserver")),
        Err(MetadataError::UnsupportedOperation(_))
    ));
}

#[test]
fn a_failed_structure_fetch_fails_the_whole_list() {
    let t = |n: &str| TableInfo { name: n.to_string(), schema: None, row_count: None, columns: vec![] };
    let ok = MetadataFetcher::collect_tables(vec![Ok(t("a")), Ok(t("b"))]).unwrap();
    assert_eq!(ok, vec![t("a"), t("b")]);
    let e = MetadataError::FetchFailed("b".to_string());
    let r = MetadataFetcher::collect_tables(vec![Ok(t("a")), Err(e.clone()), Ok(t("c"))]);
    assert_eq!(r, Err(e));
    assert_eq!(MetadataFetcher::collect_tables(vec![]).unwrap(), vec![]);
}

#[test]
fn fetch_failures_name_operation_and_source() {
    let e = MetadataFetcher::fetch_failed("row count", &source("mysql"), "timeout");
    assert_eq!(e, MetadataError::FetchFailed("row count failed for source 'src': timeout".to_string()));
    assert_eq!(e.message(), "row count failed for source 'src': timeout");
}

#[test]
fn schemas_fall_back_per_backend() {
    let mut ds = source("mysql");
    assert_eq!(MySQLMetadata::resolve_schema(&ds, Some("x")), "x");
    assert_eq!(MySQLMetadata::resolve_schema(&ds, None), "shop");
    ds.database = None;
    assert_eq!(MySQLMetadata::resolve_schema(&ds, None), "information_schema");
    assert_eq!(PostgreSQLMetadata::resolve_schema(&ds, None), "public");
    assert_eq!(SQLServerMetadata::resolve_schema(&ds, None), "dbo");
}

#[test]
fn catalog_rows_become_columns() {
    let c = MySQLMetadata::column_from_row("id".to_string(), "int".to_string(), "NO", None, "PRI");
    assert!(!c.is_nullable);
    assert_eq!(c.constraints, vec!["PRIMARY KEY".to_string()]);
    let c = MySQLMetadata::column_from_row("n".to_string(), "text".to_string(), "YES", Some("''".to_string()), "MUL");
    assert!(c.is_nullable);
    assert!(c.constraints.is_empty());
    let c = column_with_constraint_text(
        "id".to_string(),
        "integer".to_string(),
        "NO",
        None,
        Some("PRIMARY KEY, FOREIGN KEY"),
    );
    assert_eq!(c.constraints, vec!["PRIMARY KEY".to_string(), "FOREIGN KEY".to_string()]);
    let t = fetched_table("orders", "public", vec![c.clone()]);
    assert_eq!(t.schema, Some("public".to_string()));
    assert_eq!(t.row_count, None);
    assert_eq!(t.columns, vec![c]);
}

#[test]
fn constraint_text_splits_on_commas_and_trims() {
    assert_eq!(split_constraints(None), Vec::<String>::new());
    assert_eq!(split_constraints(Some("UNIQUE")), vec!["UNIQUE".to_string()]);
    assert_eq!(split_constraints(Some(" A ,B,, C ")), vec!["A", "B", "", "C"]);
    assert_eq!(split_constraints(Some("")), vec![String::new()]);
}

#[test]
fn row_count_queries_quote_per_backend() {
    assert_eq!(MySQLMetadata::row_count_query("s", "t"), "SELECT COUNT(*) as count FROM `s`.`t`");
    assert_eq!(PostgreSQLMetadata::row_count_query("s", "t"), "SELECT COUNT(*) as count FROM \"s\".\"t\"");
    assert_eq!(SQLServerMetadata::row_count_query("s", "t"), "SELECT COUNT(*) as count FROM [s].[t]");
    assert_eq!(SQLServerMetadata::row_count_from(Some(7)), 7);
    assert_eq!(SQLServerMetadata::row_count_from(None), 0);
    assert_eq!(
        SQLServerMetadata::tables_query("dbo"),
        "SELECT table_name FROM information_schema.tables WHERE table_schema = 'dbo' AND table_type = 'BASE TABLE' ORDER BY table_name"
    );
}

#[test]
fn connection_urls_carry_credentials_and_database() {
    let mut ds = source("mysql");
    assert_eq!(MySQLConnector::build_connection_url(&ds).unwrap(), "mysql://u:p@h:3306/shop");
    ds.database = None;
    assert_eq!(MySQLConnector::build_connection_url(&ds).unwrap(), "mysql://u:p@h:3306/");
    ds.port = 5432;
    assert_eq!(PostgreSQLConnector::build_connection_url(&ds).unwrap(), "postgresql://u:p@h:5432/postgres");
    ds.proxy_type = Some("socks5".to_string());
    assert!(matches!(MySQLConnector::build_connection_url(&ds), Err(MetadataError::ConnectionError(_))));
    ds.proxy_type = Some("http".to_string());
    assert!(PostgreSQLConnector::build_connection_url(&ds).is_ok());
    ds.proxy_config = Some(proxy(None, None));
    assert!(matches!(PostgreSQLConnector::build_connection_url(&ds), Err(MetadataError::ConnectionError(_))));
}

#[test]
fn ports_are_written_in_decimal() {
    assert_eq!(decimal_text(0), "0");
    assert_eq!(decimal_text(9), "9");
    assert_eq!(decimal_text(10), "10");
    assert_eq!(decimal_text(65535), "65535");
}

#[test]
fn http_proxy_url_includes_credentials_only_when_both_are_set() {
    assert_eq!(ProxyManager::create_http_proxy_url(&proxy(Some("a"), Some("b"))), "http://a:b@proxy:8080");
    assert_eq!(ProxyManager::create_http_proxy_url(&proxy(Some("a"), None)), "http://proxy:8080");
    assert_eq!(ProxyManager::create_http_proxy_url(&proxy(None, None)), "http://proxy:8080");
}

#[test]
fn kafka_settings_add_sasl_for_named_users() {
    let mut ds = source("kafka");
    ds.port = 9092;
    let s: Vec<(String, String)> = KafkaConnector::client_settings(&ds).into_iter().map(|x| (x.key, x.value)).collect();
    assert_eq!(s.len(), 7);
    assert_eq!(s[0], ("bootstrap.servers".to_string(), "h:9092".to_string()));
    assert_eq!(s[5], ("sasl.username".to_string(), "u".to_string()));
    ds.username = String::new();
    assert_eq!(KafkaConnector::client_settings(&ds).len(), 3);
}

#[test]
fn registry_addresses_drop_trailing_slashes() {
    let mut ds = source("kafka");
    assert!(matches!(KafkaMetadata::registry_base(&ds), Err(MetadataError::RegistryUnavailable(_))));
    ds.schema_registry_url = Some("http://reg:8081//".to_string());
    let base = KafkaMetadata::registry_base(&ds).unwrap();
    assert_eq!(base, "http://reg:8081");
    assert_eq!(KafkaMetadata::subjects_url(&base), "http://reg:8081/subjects");
    assert_eq!(
        KafkaMetadata::latest_version_url(&base, "orders-value"),
        "http://reg:8081/subjects/orders-value/versions/latest"
    );
}

#[test]
fn registry_fields_take_their_defaults() {
    let s = KafkaMetadata::schema_from_fields("a".to_string(), None, None, None, None);
    assert_eq!(s, SchemaInfo { subject: "a".to_string(), version: 0, schema_type: "AVRO".to_string(), schema: String::new() });
    let s = KafkaMetadata::schema_from_fields("a".to_string(), Some(3), None, Some("JSON".to_string()), Some("{}".to_string()));
    assert_eq!(s.version, 3);
    assert_eq!(s.schema_type, "JSON");
    assert_eq!(s.schema, "{}");
    let s = KafkaMetadata::schema_from_fields("a".to_string(), Some(1), Some("PROTOBUF".to_string()), Some("JSON".to_string()), None);
    assert_eq!(s.schema_type, "PROTOBUF");
}

#[test]
fn registry_scan_skips_failed_subjects_and_reports_them() {
    let found = |n: &str| SchemaInfo { subject: n.to_string(), version: 1, schema_type: "AVRO".to_string(), schema: "{}".to_string() };
    let scan = KafkaMetadata::scan_registry(vec![
        SubjectLookup::Found(found("a")),
        SubjectLookup::Failed("b".to_string()),
        SubjectLookup::Found(found("c")),
    ]);
    assert_eq!(scan.schemas, vec![found("a"), found("c")]);
    assert_eq!(scan.skipped, vec!["b".to_string()]);
}

#[test]
fn import_context_is_chosen_in_order_of_precedence() {
    let existing = vec![
        ContextRef { id: 4, name: "prod".to_string() },
        ContextRef { id: 5, name: "dev".to_string() },
        ContextRef { id: 6, name: "dev".to_string() },
    ];
    assert_eq!(choose_import_context(Some(1), Some("dev".to_string()), Some(2), &existing), ContextChoice::Existing(1));
    assert_eq!(choose_import_context(None, Some("dev".to_string()), Some(2), &existing), ContextChoice::Existing(5));
    assert_eq!(choose_import_context(None, Some("qa".to_string()), Some(2), &existing), ContextChoice::Create("qa".to_string()));
    assert_eq!(choose_import_context(None, None, Some(2), &existing), ContextChoice::Existing(2));
    assert_eq!(choose_import_context(None, None, None, &existing), ContextChoice::Missing);
}
