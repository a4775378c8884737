use data_explorer::compare::describe_column;
use data_explorer::error::MetadataError;
use data_explorer::fetcher::MetadataFetcher;
use data_explorer::model::{ColumnInfo, DiffKind, StructureDiff, TableInfo};

fn col(name: &str, data_type: &str) -> ColumnInfo {
    ColumnInfo {
        name: name.to_string(),
        data_type: data_type.to_string(),
        is_nullable: true,
        default_value: None,
        constraints: Vec::new(),
    }
}

fn table(columns: Vec<ColumnInfo>) -> TableInfo {
    TableInfo { name: "t".to_string(), schema: None, row_count: None, columns }
}

fn diff(name: &str, kind: DiffKind, before: Option<&str>, after: Option<&str>) -> StructureDiff {
    StructureDiff {
        column_name: name.to_string(),
        diff_type: kind,
        source1_value: before.map(|s| s.to_string()),
        source2_value: after.map(|s| s.to_string()),
    }
}

#[test]
fn added_and_modified_columns_are_reported() {
    let a = table(vec![col("a", "int"), col("b", "text")]);
    let b = table(vec![col("a", "int"), col("b", "varchar"), col("c", "int")]);
    let diffs = MetadataFetcher::compare_structure(&a, &b);
    assert_eq!(
        diffs,
        vec![
            diff("c", DiffKind::Added, None, Some("int")),
            diff("b", DiffKind::Modified, Some("text"), Some("varchar")),
        ]
    );
}

#[test]
fn identical_structures_differ_only_in_row_count() {
    let a = table(vec![col("a", "int"), col("b", "text")]);
    let b = table(vec![col("a", "int"), col("b", "text")]);
    let c = MetadataFetcher::compare_tables("t", Ok(a), Ok(b), Ok(100), Ok(130)).unwrap();
    assert!(c.structure_diff.is_empty());
    assert_eq!(c.row_count_diff, Some(-30));
    assert_eq!(c.source1.row_count, Some(100));
    assert_eq!(c.source2.row_count, Some(130));
    assert_eq!(c.table_name, "t");
}

#[test]
fn swapping_the_sources_mirrors_the_diff() {
    let a = table(vec![col("a", "int"), col("b", "text"), col("d", "date")]);
    let b = table(vec![col("a", "bigint"), col("b", "text"), col("c", "int")]);
    let ab = MetadataFetcher::compare_structure(&a, &b);
    let ba = MetadataFetcher::compare_structure(&b, &a);
    assert_eq!(
        ab,
        vec![
            diff("c", DiffKind::Added, None, Some("int")),
            diff("d", DiffKind::Removed, Some("date"), None),
            diff("a", DiffKind::Modified, Some("int"), Some("bigint")),
        ]
    );
    assert_eq!(
        ba,
        vec![
            diff("d", DiffKind::Added, None, Some("date")),
            diff("c", DiffKind::Removed, Some("int"), None),
            diff("a", DiffKind::Modified, Some("bigint"), Some("int")),
        ]
    );
    let c1 = MetadataFetcher::compare_tables("t", Ok(a.clone()), Ok(b.clone()), Ok(7), Ok(3)).unwrap();
    let c2 = MetadataFetcher::compare_tables("t", Ok(b), Ok(a), Ok(3), Ok(7)).unwrap();
    assert_eq!(c1.row_count_diff, Some(4));
    assert_eq!(c2.row_count_diff, Some(-4));
}

#[test]
fn nullability_and_default_changes_are_modifications() {
    let mut x = col("a", "int");
    x.is_nullable = false;
    let mut y = col("a", "int");
    y.default_value = Some("0".to_string());
    let diffs = MetadataFetcher::compare_structure(&table(vec![x]), &table(vec![y]));
    assert_eq!(
        diffs,
        vec![diff("a", DiffKind::Modified, Some("int NOT NULL"), Some("int DEFAULT 0"))]
    );
}

#[test]
fn constraint_changes_alone_are_not_reported() {
    let x = col("id", "int");
    let mut y = col("id", "int");
    y.constraints.push("PRIMARY KEY".to_string());
    let diffs = MetadataFetcher::compare_structure(&table(vec![x]), &table(vec![y]));
    assert!(diffs.is_empty());
}

#[test]
fn empty_structures_have_no_diff() {
    let diffs = MetadataFetcher::compare_structure(&table(vec![]), &table(vec![]));
    assert!(diffs.is_empty());
}

#[test]
fn column_description_lists_type_nullability_and_default() {
    let mut c = col("a", "varchar(10)");
    c.is_nullable = false;
    c.default_value = Some("'x'".to_string());
    assert_eq!(describe_column(&c), "varchar(10) NOT NULL DEFAULT 'x'");
}

#[test]
fn a_failed_row_count_aborts_the_comparison() {
    let a = table(vec![col("a", "int")]);
    let e = MetadataError::FetchFailed("count".to_string());
    let r = MetadataFetcher::compare_tables("t", Ok(a.clone()), Ok(a.clone()), Ok(1), Err(e.clone()));
    assert_eq!(r.unwrap_err(), e);
    let e1 = MetadataError::ConnectionError("first".to_string());
    let e2 = MetadataError::ConnectionError("second".to_string());
    let r = MetadataFetcher::compare_tables("t", Err(e1.clone()), Ok(a), Err(e2), Ok(1));
    assert_eq!(r.unwrap_err(), e1);
}

#[test]
fn row_count_difference_that_overflows_is_absent() {
    assert_eq!(MetadataFetcher::row_count_diff(i64::MIN, 1), None);
    assert_eq!(MetadataFetcher::row_count_diff(i64::MAX, 0), Some(i64::MAX));
    assert_eq!(MetadataFetcher::row_count_diff(0, i64::MAX), Some(-i64::MAX));
}
