//! The backend-specific parts of the relational adapters that do not talk
//! to the backend: schema defaults, catalog queries, and the translation of
//! catalog rows into canonical columns.
use vstd::prelude::*;
use vstd::string::*;
use crate::model::{
    columns_view, opt_str_view, strs_view, ColumnInfo, ColumnView, TableInfo, TableView,
};
use crate::source::DataSource;
use crate::store::opt_str_ref_view;

verus! {

/// What `str::trim` returns for a text: the text without leading and
/// trailing whitespace.
pub uninterp spec fn trimmed(s: Seq<char>) -> Seq<char>;

/// Relies on `str::trim`: the result depends on the characters alone.
#[verifier::external_body]
fn trim_text(s: &str) -> (r: String)
    ensures
        r@ == trimmed(s@),
{
    s.trim().to_string()
}

/// The pieces of `s` between commas, in order; a text without commas is a
/// single piece, and the empty text is one empty piece.
pub open spec fn split_commas(s: Seq<char>) -> Seq<Seq<char>>
    decreases s.len(),
{
    if s.len() == 0 {
        seq![Seq::<char>::empty()]
    } else {
        let r = split_commas(s.drop_last());
        if s.last() == ',' {
            r.push(Seq::<char>::empty())
        } else {
            r.update(r.len() - 1, r.last().push(s.last()))
        }
    }
}

/// The constraint list that an aggregated constraint text stands for: its
/// comma-separated pieces, trimmed.
pub open spec fn constraint_list(s: Seq<char>) -> Seq<Seq<char>> {
    split_commas(s).map_values(|p: Seq<char>| trimmed(p))
}

/// Splits an aggregated constraint text (`"PRIMARY KEY, UNIQUE"`) into its
/// trimmed pieces; no text means no constraints.
pub fn split_constraints(text: Option<&str>) -> (r: Vec<String>)
    ensures
        strs_view(r@) == match opt_str_ref_view(text) {
            Some(s) => constraint_list(s),
            None => Seq::<Seq<char>>::empty(),
        },
{
    let s = match text {
        Some(s) => s,
        None => {
            let r: Vec<String> = Vec::new();
            assert(strs_view(r@) =~= Seq::<Seq<char>>::empty());
            return r;
        },
    };
    let n = s.unicode_len();
    let mut pieces: Vec<String> = Vec::new();
    let mut start: usize = 0;
    let mut i: usize = 0;
    assert(s@.take(0) =~= Seq::<char>::empty());
    assert(strs_view(pieces@).push(s@.subrange(0, 0)) =~= seq![Seq::<char>::empty()]);
    while i < n
        invariant
            n == s@.len(),
            start <= i <= n,
            split_commas(s@.take(i as int)) == strs_view(pieces@).push(
                s@.subrange(start as int, i as int),
            ),
        decreases n - i,
    {
        let c = s.get_char(i);
        proof {
            assert(s@.take(i + 1).drop_last() =~= s@.take(i as int));
            assert(s@.take(i + 1).last() == c);
        }
        if c == ',' {
            let ghost before = pieces@;
            pieces.push(s.substring_char(start, i).to_owned());
            assert(strs_view(pieces@) =~= strs_view(before).push(s@.subrange(start as int, i as int)));
            start = i + 1;
            assert(s@.subrange(start as int, i + 1) =~= Seq::<char>::empty());
        } else {
            assert(s@.subrange(start as int, i + 1) =~= s@.subrange(start as int, i as int).push(c));
            assert(strs_view(pieces@).push(s@.subrange(start as int, i as int)).update(
                pieces.len() as int,
                s@.subrange(start as int, i + 1),
            ) =~= strs_view(pieces@).push(s@.subrange(start as int, i + 1)));
        }
        i = i + 1;
    }
    pieces.push(s.substring_char(start, n).to_owned());
    assert(s@.take(n as int) =~= s@);
    let ghost raw = strs_view(pieces@);
    assert(raw =~= split_commas(s@));
    let mut r: Vec<String> = Vec::new();
    let mut j: usize = 0;
    while j < pieces.len()
        invariant
            j <= pieces.len(),
            raw == strs_view(pieces@),
            r.len() == j,
            forall|k: int| 0 <= k < j ==> (#[trigger] r@[k])@ == trimmed(raw[k]),
        decreases pieces.len() - j,
    {
        r.push(trim_text(pieces[j].as_str()));
        j = j + 1;
    }
    assert(strs_view(r@) =~= constraint_list(s@));
    r
}

/// The nullability a catalog reports: `YES` means nullable.
pub fn nullable_flag(is_nullable: &str) -> (r: bool)
    ensures
        r == (is_nullable@ == "YES"@),
{
    is_nullable.to_owned() == "YES".to_owned()
}

/// The schema to query: the one asked for, else the source's database, else
/// the backend's default.
pub open spec fn schema_choice(schema: Option<Seq<char>>, database: Option<Seq<char>>, fallback: Seq<char>) -> Seq<char> {
    match schema {
        Some(s) => s,
        None => match database {
            Some(d) => d,
            None => fallback,
        },
    }
}

fn choose_schema(data_source: &DataSource, schema: Option<&str>, fallback: &str) -> (r: String)
    ensures
        r@ == schema_choice(opt_str_ref_view(schema), opt_str_view(data_source.database), fallback@),
{
    match schema {
        Some(s) => s.to_owned(),
        None => match &data_source.database {
            Some(d) => d.clone(),
            None => fallback.to_owned(),
        },
    }
}

/// A table as fetched: its name, the schema it was read from, no row count
/// yet, and its columns.
pub fn fetched_table(table_name: &str, schema: &str, columns: Vec<ColumnInfo>) -> (r: TableInfo)
    ensures
        r@ == (TableView {
            name: table_name@,
            schema: Some(schema@),
            row_count: None,
            columns: columns_view(columns@),
        }),
{
    TableInfo {
        name: table_name.to_owned(),
        schema: Some(schema.to_owned()),
        row_count: None,
        columns,
    }
}

/// A column from a catalog row whose constraints come as one aggregated
/// text, as PostgreSQL and SQL Server report them.
pub fn column_with_constraint_text(
    name: String,
    data_type: String,
    is_nullable: &str,
    default_value: Option<String>,
    constraints: Option<&str>,
) -> (r: ColumnInfo)
    ensures
        r@ == (ColumnView {
            name: name@,
            data_type: data_type@,
            is_nullable: is_nullable@ == "YES"@,
            default_value: opt_str_view(default_value),
            constraints: match opt_str_ref_view(constraints) {
                Some(s) => constraint_list(s),
                None => Seq::<Seq<char>>::empty(),
            },
        }),
{
    ColumnInfo {
        name,
        data_type,
        is_nullable: nullable_flag(is_nullable),
        default_value,
        constraints: split_constraints(constraints),
    }
}

/// The MySQL adapter.
pub struct MySQLMetadata;

impl MySQLMetadata {
    /// The schema to query; MySQL falls back to `information_schema`.
    pub fn resolve_schema(data_source: &DataSource, schema: Option<&str>) -> (r: String)
        ensures
            r@ == schema_choice(
                opt_str_ref_view(schema),
                opt_str_view(data_source.database),
                "information_schema"@,
            ),
    {
        choose_schema(data_source, schema, "information_schema")
    }

    /// A column from a row of `information_schema.columns`; a column key of
    /// `PRI` makes it part of the primary key.
    pub fn column_from_row(
        name: String,
        data_type: String,
        is_nullable: &str,
        default_value: Option<String>,
        column_key: &str,
    ) -> (r: ColumnInfo)
        ensures
            r@ == (ColumnView {
                name: name@,
                data_type: data_type@,
                is_nullable: is_nullable@ == "YES"@,
                default_value: opt_str_view(default_value),
                constraints: if column_key@ == "PRI"@ {
                    seq!["PRIMARY KEY"@]
                } else {
                    Seq::<Seq<char>>::empty()
                },
            }),
    {
        let mut constraints: Vec<String> = Vec::new();
        if column_key.to_owned() == "PRI".to_owned() {
            constraints.push("PRIMARY KEY".to_owned());
        }
        let r = ColumnInfo {
            name,
            data_type,
            is_nullable: nullable_flag(is_nullable),
            default_value,
            constraints,
        };
        assert(r@.constraints =~= if column_key@ == "PRI"@ {
            seq!["PRIMARY KEY"@]
        } else {
            Seq::<Seq<char>>::empty()
        });
        r
    }

    /// The exact row count query for one table.
    pub fn row_count_query(schema: &str, table_name: &str) -> (r: String)
        ensures
            r@ == "SELECT COUNT(*) as count FROM `"@ + schema@ + "`.`"@ + table_name@ + "`"@,
    {
        "SELECT COUNT(*) as count FROM `".to_owned().concat(schema).concat("`.`").concat(
            table_name,
        ).concat("`")
    }
}

/// The PostgreSQL adapter.
pub struct PostgreSQLMetadata;

impl PostgreSQLMetadata {
    /// The schema to query; PostgreSQL falls back to `public`.
    pub fn resolve_schema(data_source: &DataSource, schema: Option<&str>) -> (r: String)
        ensures
            r@ == schema_choice(
                opt_str_ref_view(schema),
                opt_str_view(data_source.database),
                "public"@,
            ),
    {
        choose_schema(data_source, schema, "public")
    }

    /// The exact row count query for one table.
    pub fn row_count_query(schema: &str, table_name: &str) -> (r: String)
        ensures
            r@ == "SELECT COUNT(*) as count FROM \""@ + schema@ + "\".\""@ + table_name@ + "\""@,
    {
        "SELECT COUNT(*) as count FROM \"".to_owned().concat(schema).concat("\".\"").concat(
            table_name,
        ).concat("\"")
    }
}

/// The SQL Server adapter.
pub struct SQLServerMetadata;

impl SQLServerMetadata {
    /// The schema to query; SQL Server falls back to `dbo`.
    pub fn resolve_schema(data_source: &DataSource, schema: Option<&str>) -> (r: String)
        ensures
            r@ == schema_choice(opt_str_ref_view(schema), opt_str_view(data_source.database), "dbo"@),
    {
        choose_schema(data_source, schema, "dbo")
    }

    /// The query that lists the base tables of a schema.
    pub fn tables_query(schema: &str) -> (r: String)
        ensures
            r@ == "SELECT table_name FROM information_schema.tables WHERE table_schema = '"@
                + schema@ + "' AND table_type = 'BASE TABLE' ORDER BY table_name"@,
    {
        "SELECT table_name FROM information_schema.tables WHERE table_schema = '".to_owned().concat(
            schema,
        ).concat("' AND table_type = 'BASE TABLE' ORDER BY table_name")
    }

    /// The catalog query for the columns of one table, in ordinal order,
    /// with each column's constraint types aggregated into one text.
    pub fn structure_query(schema: &str, table_name: &str) -> (r: String)
        ensures
            r@ == "SELECT c.column_name, c.data_type, c.is_nullable, c.column_default, (SELECT STRING_AGG(tc.constraint_type, ', ') FROM information_schema.table_constraints tc JOIN information_schema.key_column_usage kcu ON tc.constraint_name = kcu.constraint_name WHERE tc.table_schema = '"@
                + schema@ + "' AND tc.table_name = '"@ + table_name@
                + "' AND kcu.column_name = c.column_name) as constraints FROM information_schema.columns c WHERE c.table_schema = '"@
                + schema@ + "' AND c.table_name = '"@ + table_name@
                + "' ORDER BY c.ordinal_position"@,
    {
        "SELECT c.column_name, c.data_type, c.is_nullable, c.column_default, (SELECT STRING_AGG(tc.constraint_type, ', ') FROM information_schema.table_constraints tc JOIN information_schema.key_column_usage kcu ON tc.constraint_name = kcu.constraint_name WHERE tc.table_schema = '".to_owned().concat(
            schema,
        ).concat("' AND tc.table_name = '").concat(table_name).concat(
            "' AND kcu.column_name = c.column_name) as constraints FROM information_schema.columns c WHERE c.table_schema = '",
        ).concat(schema).concat("' AND c.table_name = '").concat(table_name).concat(
            "' ORDER BY c.ordinal_position",
        )
    }

    /// The exact row count query for one table.
    pub fn row_count_query(schema: &str, table_name: &str) -> (r: String)
        ensures
            r@ == "SELECT COUNT(*) as count FROM ["@ + schema@ + "].["@ + table_name@ + "]"@,
    {
        "SELECT COUNT(*) as count FROM [".to_owned().concat(schema).concat("].[").concat(
            table_name,
        ).concat("]")
    }

    /// The row count that the count query's first row reports; no row or
    /// no value counts as zero.
    pub fn row_count_from(value: Option<i32>) -> (r: i64)
        ensures
            r == match value {
                Some(n) => n as i64,
                None => 0,
            },
    {
        match value {
            Some(n) => n as i64,
            None => 0,
        }
    }
}

} // verus!
