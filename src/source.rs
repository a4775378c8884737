//! Data-source descriptors and the closed set of backend kinds they name.
use vstd::prelude::*;
use vstd::string::*;
use crate::error::MetadataError;

verus! {

/// A proxy through which a source is reached.
#[derive(Clone, Debug, PartialEq)]
pub struct ProxyConfig {
    pub proxy_type: String,
    pub host: String,
    pub port: u16,
    pub username: Option<String>,
    pub password: Option<String>,
}

/// An SSH tunnel through which a source is reached.
#[derive(Clone, Debug, PartialEq)]
pub struct SshConfig {
    pub host: String,
    pub port: u16,
    pub username: String,
    pub password: Option<String>,
    pub private_key_path: Option<String>,
    pub local_port: u16,
}

/// A configured external system. Times are seconds since the Unix epoch.
#[derive(Clone, Debug, PartialEq)]
pub struct DataSource {
    pub id: i64,
    pub context_id: i64,
    pub name: String,
    pub data_type: String,
    pub host: String,
    pub port: u16,
    pub database: Option<String>,
    pub username: String,
    pub password: String,
    pub proxy_type: Option<String>,
    pub proxy_config: Option<ProxyConfig>,
    pub ssh_config: Option<SshConfig>,
    pub schema_registry_url: Option<String>,
    pub created_at: i64,
    pub updated_at: i64,
}

/// The family of external system a source connects to.
#[derive(Clone, Copy, Debug, PartialEq, Eq, Structural)]
pub enum BackendKind {
    MySql,
    PostgreSql,
    SqlServer,
    Kafka,
}

/// The name under which a descriptor declares each kind.
pub open spec fn backend_label(k: BackendKind) -> Seq<char> {
    match k {
        BackendKind::MySql => "mysql"@,
        BackendKind::PostgreSql => "postgresql"@,
        BackendKind::SqlServer => "sqlserver"@,
        BackendKind::Kafka => "kafka"@,
    }
}

/// Whether the kind is a relational database family.
pub open spec fn is_relational(k: BackendKind) -> bool {
    k != BackendKind::Kafka
}

impl BackendKind {
    /// The kind declared by `data_type`; an unknown name is rejected with
    /// `UnsupportedBackend`.
    pub fn parse(data_type: &str) -> (r: Result<BackendKind, MetadataError>)
        ensures
            r is Ok ==> data_type@ == backend_label(r->Ok_0),
            r is Err ==> r->Err_0 is UnsupportedBackend && forall|k: BackendKind|
                data_type@ != #[trigger] backend_label(k),
    {
        let t = data_type.to_owned();
        if t == "mysql".to_owned() {
            Ok(BackendKind::MySql)
        } else if t == "postgresql".to_owned() {
            Ok(BackendKind::PostgreSql)
        } else if t == "sqlserver".to_owned() {
            Ok(BackendKind::SqlServer)
        } else if t == "kafka".to_owned() {
            Ok(BackendKind::Kafka)
        } else {
            assert forall|k: BackendKind| data_type@ != #[trigger] backend_label(k) by {
                match k {
                    BackendKind::MySql => {},
                    BackendKind::PostgreSql => {},
                    BackendKind::SqlServer => {},
                    BackendKind::Kafka => {},
                }
            }
            Err(MetadataError::UnsupportedBackend("Unsupported data source type: ".to_owned().concat(data_type)))
        }
    }
}

} // verus!
