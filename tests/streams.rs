use data_explorer::cache::CacheManager;
use data_explorer::codec::Cell;
use data_explorer::model::{KafkaTopicInfo, PartitionInfo, SchemaInfo};
use data_explorer::source::DataSource;
use data_explorer::store::init_db;
use data_explorer::stream_codec::{schemas_from_document, schemas_to_document, topics_from_document, topics_to_document};

fn kafka(id: i64) -> DataSource {
    DataSource {
        id,
        context_id: 1,
        name: "events".to_string(),
        data_type: "kafka".to_string(),
        host: "broker".to_string(),
        port: 9092,
        database: None,
        username: String::new(),
        password: String::new(),
        proxy_type: None,
        proxy_config: None,
        ssh_config: None,
        schema_registry_url: Some("http://registry:8081".to_string()),
        created_at: 0,
        updated_at: 0,
    }
}

fn topics() -> Vec<KafkaTopicInfo> {
    vec![
        KafkaTopicInfo {
            name: "orders".to_string(),
            partitions: vec![
                PartitionInfo { id: 0, leader: 1, replicas: vec![1, 2, 3], isr: vec![1, 2] },
                PartitionInfo { id: 1, leader: -1, replicas: vec![], isr: vec![] },
            ],
            consumer_groups: vec!["billing".to_string()],
        },
        KafkaTopicInfo { name: "empty".to_string(), partitions: vec![], consumer_groups: vec![] },
    ]
}

fn schemas() -> Vec<SchemaInfo> {
    vec![
        SchemaInfo { subject: "orders-value".to_string(), version: 3, schema_type: "AVRO".to_string(), schema: "{}".to_string() },
        SchemaInfo { subject: "k".to_string(), version: i32::MIN, schema_type: "JSON".to_string(), schema: String::new() },
    ]
}

#[test]
fn topic_list_encoding_round_trips() {
    let ts = topics();
    assert_eq!(topics_from_document(&topics_to_document(&ts)), Some(ts));
    assert_eq!(topics_from_document(&vec![Cell::Int(1)]), None);
}

#[test]
fn schema_list_encoding_round_trips() {
    let ss = schemas();
    assert_eq!(schemas_from_document(&schemas_to_document(&ss)), Some(ss));
    let too_big = vec![Cell::Int(1), Cell::Text("s".to_string()), Cell::Int(1 << 40), Cell::Text("AVRO".to_string()), Cell::Text(String::new())];
    assert_eq!(schemas_from_document(&too_big), None);
}

#[test]
fn topics_are_served_from_the_cache_after_a_fetch() {
    let mut m = CacheManager::new(init_db());
    let ds = kafka(8);
    assert_eq!(m.cached_kafka_topics(&ds, false, 1), None);
    let t = m.record_kafka_topics(&ds, Ok(topics()), 1).unwrap();
    assert_eq!(t, topics());
    assert_eq!(m.cached_kafka_topics(&ds, false, 2), Some(topics()));
    assert_eq!(m.cached_kafka_topics(&ds, true, 2), None);
    m.clear_cache(8, Some("topics"));
    assert_eq!(m.cached_kafka_topics(&ds, false, 3), None);
}

#[test]
fn registry_schemas_are_served_from_the_cache_after_a_fetch() {
    let mut m = CacheManager::new(init_db());
    let ds = kafka(9);
    assert_eq!(m.cached_registry_schemas(&ds, false, 1), None);
    m.record_registry_schemas(&ds, Ok(schemas()), 1).unwrap();
    assert_eq!(m.cached_registry_schemas(&ds, false, 2), Some(schemas()));
    m.clear_cache(9, None);
    assert_eq!(m.cached_registry_schemas(&ds, false, 3), None);
}
