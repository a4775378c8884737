//! The schema-registry side of the event-stream adapter: request addresses,
//! the defaults of a subject's latest version, and the best-effort scan
//! over subjects, which reports the subjects it had to skip.
use vstd::prelude::*;
use vstd::string::*;
use crate::error::MetadataError;
use crate::model::{opt_str_view, SchemaInfo};
use crate::source::DataSource;

verus! {

/// `s` without its trailing slashes.
pub open spec fn without_trailing_slashes(s: Seq<char>) -> Seq<char>
    decreases s.len(),
{
    if s.len() > 0 && s.last() == '/' {
        without_trailing_slashes(s.drop_last())
    } else {
        s
    }
}

/// What the lookup of one subject's latest version gave.
#[derive(Clone, Debug, PartialEq)]
pub enum SubjectLookup {
    Found(SchemaInfo),
    Failed(String),
}

/// The outcome of a scan over the registry's subjects: the schemas found,
/// in subject order, and the subjects whose lookup failed.
pub struct RegistryScan {
    pub schemas: Vec<SchemaInfo>,
    pub skipped: Vec<String>,
}

pub open spec fn found_schemas(ls: Seq<SubjectLookup>) -> Seq<SchemaInfo>
    decreases ls.len(),
{
    if ls.len() == 0 {
        Seq::empty()
    } else {
        let r = found_schemas(ls.drop_last());
        match ls.last() {
            SubjectLookup::Found(s) => r.push(s),
            SubjectLookup::Failed(_) => r,
        }
    }
}

pub open spec fn failed_subjects(ls: Seq<SubjectLookup>) -> Seq<String>
    decreases ls.len(),
{
    if ls.len() == 0 {
        Seq::empty()
    } else {
        let r = failed_subjects(ls.drop_last());
        match ls.last() {
            SubjectLookup::Found(_) => r,
            SubjectLookup::Failed(s) => r.push(s),
        }
    }
}

/// The schema type a version reports under `schemaType` or `schema_type`,
/// `AVRO` when it reports none.
pub open spec fn schema_type_choice(primary: Option<Seq<char>>, alternate: Option<Seq<char>>) -> Seq<char> {
    match primary {
        Some(t) => t,
        None => match alternate {
            Some(t) => t,
            None => "AVRO"@,
        },
    }
}

/// The event-stream adapter.
pub struct KafkaMetadata;

impl KafkaMetadata {
    /// The registry address of the source without trailing slashes; a
    /// source without one cannot reach a registry.
    pub fn registry_base(data_source: &DataSource) -> (r: Result<String, MetadataError>)
        ensures
            match opt_str_view(data_source.schema_registry_url) {
                Some(u) => r is Ok && r->Ok_0@ == without_trailing_slashes(u),
                None => r is Err && r->Err_0 is RegistryUnavailable,
            },
    {
        let u = match &data_source.schema_registry_url {
            Some(u) => u.as_str(),
            None => {
                return Err(
                    MetadataError::RegistryUnavailable(
                        "Schema Registry URL not configured".to_owned(),
                    ),
                )
            },
        };
        let mut end = u.unicode_len();
        assert(u@.take(end as int) =~= u@);
        while end > 0 && u.get_char(end - 1) == '/'
            invariant
                end <= u@.len(),
                without_trailing_slashes(u@) == without_trailing_slashes(u@.take(end as int)),
            decreases end,
        {
            assert(u@.take(end as int).drop_last() =~= u@.take(end - 1));
            end = end - 1;
        }
        assert(u@.take(end as int) =~= u@.subrange(0, end as int));
        Ok(u.substring_char(0, end).to_owned())
    }

    /// The address that lists the registry's subjects.
    pub fn subjects_url(base: &str) -> (r: String)
        ensures
            r@ == base@ + "/subjects"@,
    {
        base.to_owned().concat("/subjects")
    }

    /// The address of a subject's latest version.
    pub fn latest_version_url(base: &str, subject: &str) -> (r: String)
        ensures
            r@ == base@ + "/subjects/"@ + subject@ + "/versions/latest"@,
    {
        base.to_owned().concat("/subjects/").concat(subject).concat("/versions/latest")
    }

    /// A subject's latest version from the fields the registry reported:
    /// version 0 when it has none (kept to its low 32 bits), the schema type
    /// from `schemaType`, else `schema_type`, else `AVRO`, and an empty
    /// schema when it has none.
    pub fn schema_from_fields(
        subject: String,
        version: Option<i64>,
        schema_type: Option<String>,
        schema_type_alt: Option<String>,
        schema: Option<String>,
    ) -> (r: SchemaInfo)
        ensures
            r.subject == subject,
            r.version == (match version {
                Some(v) => v,
                None => 0,
            }) as i32,
            r.schema_type@ == schema_type_choice(opt_str_view(schema_type), opt_str_view(schema_type_alt)),
            r.schema@ == match opt_str_view(schema) {
                Some(s) => s,
                None => Seq::<char>::empty(),
            },
    {
        let v: i64 = match version {
            Some(v) => v,
            None => 0,
        };
        let t = match schema_type {
            Some(t) => t,
            None => match schema_type_alt {
                Some(t) => t,
                None => "AVRO".to_owned(),
            },
        };
        let s = match schema {
            Some(s) => s,
            None => String::new(),
        };
        SchemaInfo { subject, version: v as i32, schema_type: t, schema: s }
    }

    /// Gathers the lookups of all subjects: each found schema is kept in
    /// order, and each failed subject is reported as skipped rather than
    /// failing the scan.
    pub fn scan_registry(lookups: Vec<SubjectLookup>) -> (r: RegistryScan)
        ensures
            r.schemas@ == found_schemas(lookups@),
            r.skipped@ == failed_subjects(lookups@),
    {
        let ghost all = lookups@;
        let total = lookups.len();
        let mut rest = lookups;
        let mut schemas: Vec<SchemaInfo> = Vec::new();
        let mut skipped: Vec<String> = Vec::new();
        let mut i: usize = 0;
        while rest.len() > 0
            invariant
                all == lookups@,
                all.len() == total,
                i <= all.len(),
                rest@ == all.skip(i as int),
                schemas@ == found_schemas(all.take(i as int)),
                skipped@ == failed_subjects(all.take(i as int)),
            decreases rest.len(),
        {
            assert(rest.len() == all.len() - i);
            let next = rest.remove(0);
            assert(next == all[i as int]);
            assert(all.take(i + 1).drop_last() =~= all.take(i as int));
            assert(all.take(i + 1).last() == next);
            match next {
                SubjectLookup::Found(s) => schemas.push(s),
                SubjectLookup::Failed(s) => skipped.push(s),
            }
            i = i + 1;
            assert(rest@ =~= all.skip(i as int));
        }
        assert(all.take(i as int) =~= all);
        RegistryScan { schemas, skipped }
    }
}

} // verus!
