//! The structural comparison engine: a column-level diff of two table
//! structures, matched by column name, never by position.
use vstd::prelude::*;
use vstd::string::*;
use crate::error::MetadataError;
use crate::fetcher::MetadataFetcher;
use crate::model::{
    columns_view, diffs_view, opt_str_view, same_opt_str, ColumnInfo, ColumnView, DiffKind,
    DiffView, StructureDiff, TableComparison, TableInfo, TableView,
};

verus! {

/// Some column of `cols` is called `n`.
pub open spec fn has_name(cols: Seq<ColumnView>, n: Seq<char>) -> bool {
    exists|i: int| 0 <= i < cols.len() && #[trigger] cols[i].name == n
}

/// `j` is the first position of `cols` that holds a column called `n`.
pub open spec fn is_first_named(cols: Seq<ColumnView>, n: Seq<char>, j: int) -> bool {
    &&& 0 <= j < cols.len()
    &&& cols[j].name == n
    &&& forall|k: int| 0 <= k < j ==> #[trigger] cols[k].name != n
}

/// The first column of `cols` called `n`.
pub open spec fn named(cols: Seq<ColumnView>, n: Seq<char>) -> ColumnView
    recommends
        has_name(cols, n),
{
    cols[choose|j: int| is_first_named(cols, n, j)]
}

/// The text that describes a column on one side of a difference: its data
/// type, ` NOT NULL` when it is not nullable, and ` DEFAULT <value>` when it
/// has a default.
pub open spec fn column_text(c: ColumnView) -> Seq<char> {
    c.data_type + (if c.is_nullable {
        Seq::<char>::empty()
    } else {
        " NOT NULL"@
    }) + match c.default_value {
        Some(d) => " DEFAULT "@ + d,
        None => Seq::<char>::empty(),
    }
}

/// Two columns of one name differ when their data type, nullability or
/// default value differ; constraints are not compared.
pub open spec fn differs(a: ColumnView, b: ColumnView) -> bool {
    a.data_type != b.data_type || a.is_nullable != b.is_nullable || a.default_value
        != b.default_value
}

pub open spec fn added_diff(c: ColumnView) -> DiffView {
    DiffView {
        column_name: c.name,
        diff_type: DiffKind::Added,
        source1_value: None,
        source2_value: Some(column_text(c)),
    }
}

pub open spec fn removed_diff(c: ColumnView) -> DiffView {
    DiffView {
        column_name: c.name,
        diff_type: DiffKind::Removed,
        source1_value: Some(column_text(c)),
        source2_value: None,
    }
}

pub open spec fn modified_diff(a: ColumnView, b: ColumnView) -> DiffView {
    DiffView {
        column_name: a.name,
        diff_type: DiffKind::Modified,
        source1_value: Some(column_text(a)),
        source2_value: Some(column_text(b)),
    }
}

/// One `added` entry for each column of `tgt`, in its order, whose name
/// `src` lacks.
pub open spec fn added_diffs(src: Seq<ColumnView>, tgt: Seq<ColumnView>) -> Seq<DiffView>
    decreases tgt.len(),
{
    if tgt.len() == 0 {
        Seq::empty()
    } else {
        let rest = added_diffs(src, tgt.drop_last());
        if has_name(src, tgt.last().name) {
            rest
        } else {
            rest.push(added_diff(tgt.last()))
        }
    }
}

/// One `removed` entry for each column of `src`, in its order, whose name
/// `tgt` lacks.
pub open spec fn removed_diffs(src: Seq<ColumnView>, tgt: Seq<ColumnView>) -> Seq<DiffView>
    decreases src.len(),
{
    if src.len() == 0 {
        Seq::empty()
    } else {
        let rest = removed_diffs(src.drop_last(), tgt);
        if has_name(tgt, src.last().name) {
            rest
        } else {
            rest.push(removed_diff(src.last()))
        }
    }
}

/// One `modified` entry for each column of `src`, in its order, whose name
/// `tgt` has on a column that differs from it.
pub open spec fn modified_diffs(src: Seq<ColumnView>, tgt: Seq<ColumnView>) -> Seq<DiffView>
    decreases src.len(),
{
    if src.len() == 0 {
        Seq::empty()
    } else {
        let rest = modified_diffs(src.drop_last(), tgt);
        let c = src.last();
        if has_name(tgt, c.name) && differs(c, named(tgt, c.name)) {
            rest.push(modified_diff(c, named(tgt, c.name)))
        } else {
            rest
        }
    }
}

/// The structural diff of `src` against `tgt`: additions, then removals,
/// then modifications.
pub open spec fn structure_diff(src: Seq<ColumnView>, tgt: Seq<ColumnView>) -> Seq<DiffView> {
    added_diffs(src, tgt) + removed_diffs(src, tgt) + modified_diffs(src, tgt)
}

/// The text that describes a column; see `column_text`.
pub fn describe_column(c: &ColumnInfo) -> (r: String)
    ensures
        r@ == column_text(c@),
{
    let mut s = c.data_type.clone();
    if !c.is_nullable {
        s.append(" NOT NULL");
    }
    match &c.default_value {
        Some(d) => {
            s.append(" DEFAULT ");
            s.append(d.as_str());
        },
        None => {},
    }
    assert(s@ =~= column_text(c@));
    s
}

/// The position of the first column called `name`, if any.
pub fn find_column(cols: &Vec<ColumnInfo>, name: &String) -> (r: Option<usize>)
    ensures
        match r {
            Some(j) => is_first_named(columns_view(cols@), name@, j as int),
            None => !has_name(columns_view(cols@), name@),
        },
{
    let ghost cv = columns_view(cols@);
    let mut j: usize = 0;
    while j < cols.len()
        invariant
            j <= cols.len(),
            cv == columns_view(cols@),
            forall|k: int| 0 <= k < j ==> #[trigger] cv[k].name != name@,
        decreases cols.len() - j,
    {
        if cols[j].name == *name {
            return Some(j);
        }
        j = j + 1;
    }
    None
}

/// The first column called `n` is the one at any first position of that name.
pub proof fn lemma_named_at(cols: Seq<ColumnView>, n: Seq<char>, j: int)
    requires
        is_first_named(cols, n, j),
    ensures
        named(cols, n) == cols[j],
{
    let k = choose|k: int| is_first_named(cols, n, k);
    assert(is_first_named(cols, n, k));
    if k < j {
        assert(cols[k].name != n);
    } else if j < k {
        assert(cols[j].name != n);
    }
}

/// The same difference seen from the other side: `added` and `removed`
/// trade places and the two values swap.
pub open spec fn swap_diff(d: DiffView) -> DiffView {
    DiffView {
        column_name: d.column_name,
        diff_type: match d.diff_type {
            DiffKind::Added => DiffKind::Removed,
            DiffKind::Removed => DiffKind::Added,
            DiffKind::Modified => DiffKind::Modified,
        },
        source1_value: d.source2_value,
        source2_value: d.source1_value,
    }
}

pub open spec fn swap_diffs(s: Seq<DiffView>) -> Seq<DiffView> {
    s.map_values(|d: DiffView| swap_diff(d))
}

/// No two columns share a name.
pub open spec fn unique_names(cols: Seq<ColumnView>) -> bool {
    forall|i: int, j: int|
        0 <= i < cols.len() && 0 <= j < cols.len() && i != j ==> #[trigger] cols[i].name
            != #[trigger] cols[j].name
}

proof fn lemma_swap_twice(s: Seq<DiffView>)
    ensures
        swap_diffs(swap_diffs(s)) == s,
{
    assert(swap_diffs(swap_diffs(s)) =~= s);
}

proof fn lemma_added_is_swapped_removed(a: Seq<ColumnView>, b: Seq<ColumnView>)
    ensures
        added_diffs(b, a) == swap_diffs(removed_diffs(a, b)),
    decreases a.len(),
{
    if a.len() == 0 {
        assert(swap_diffs(removed_diffs(a, b)) =~= Seq::<DiffView>::empty());
    } else {
        lemma_added_is_swapped_removed(a.drop_last(), b);
        let rest = removed_diffs(a.drop_last(), b);
        assert(swap_diffs(rest.push(removed_diff(a.last()))) =~= swap_diffs(rest).push(
            added_diff(a.last()),
        ));
    }
}

/// Under unique names, a column that has a namesake is matched with the
/// namesake at any position that carries its name.
proof fn lemma_unique_named(cols: Seq<ColumnView>, j: int)
    requires
        unique_names(cols),
        0 <= j < cols.len(),
    ensures
        has_name(cols, cols[j].name),
        named(cols, cols[j].name) == cols[j],
{
    assert(is_first_named(cols, cols[j].name, j));
    lemma_named_at(cols, cols[j].name, j);
}

proof fn lemma_modified_member(src: Seq<ColumnView>, tgt: Seq<ColumnView>, d: DiffView)
    ensures
        modified_diffs(src, tgt).contains(d) <==> exists|i: int|
            0 <= i < src.len() && has_name(tgt, src[i].name) && differs(
                #[trigger] src[i],
                named(tgt, src[i].name),
            ) && d == modified_diff(src[i], named(tgt, src[i].name)),
    decreases src.len(),
{
    if src.len() > 0 {
        let init = src.drop_last();
        lemma_modified_member(init, tgt, d);
        let rest = modified_diffs(init, tgt);
        let c = src.last();
        if modified_diffs(src, tgt).contains(d) {
            if rest.contains(d) {
                let i = choose|i: int|
                    0 <= i < init.len() && has_name(tgt, init[i].name) && differs(
                        #[trigger] init[i],
                        named(tgt, init[i].name),
                    ) && d == modified_diff(init[i], named(tgt, init[i].name));
                assert(src[i] == init[i]);
            } else {
                assert(d == modified_diff(c, named(tgt, c.name)));
                assert(src[src.len() - 1] == c);
            }
        }
        if exists|i: int|
            0 <= i < src.len() && has_name(tgt, src[i].name) && differs(
                #[trigger] src[i],
                named(tgt, src[i].name),
            ) && d == modified_diff(src[i], named(tgt, src[i].name)) {
            let i = choose|i: int|
                0 <= i < src.len() && has_name(tgt, src[i].name) && differs(
                    #[trigger] src[i],
                    named(tgt, src[i].name),
                ) && d == modified_diff(src[i], named(tgt, src[i].name));
            if i < src.len() - 1 {
                assert(init[i] == src[i]);
                assert(rest.contains(d));
                let k = choose|k: int| 0 <= k < rest.len() && rest[k] == d;
                assert(modified_diffs(src, tgt)[k] == d);
            } else {
                assert(modified_diffs(src, tgt) == rest.push(d));
                assert(modified_diffs(src, tgt)[rest.len() as int] == d);
            }
        }
    }
}

proof fn lemma_modified_swaps(a: Seq<ColumnView>, b: Seq<ColumnView>, d: DiffView)
    requires
        unique_names(a),
        unique_names(b),
        modified_diffs(a, b).contains(d),
    ensures
        modified_diffs(b, a).contains(swap_diff(d)),
{
    lemma_modified_member(a, b, d);
    let i = choose|i: int|
        0 <= i < a.len() && has_name(b, a[i].name) && differs(
            #[trigger] a[i],
            named(b, a[i].name),
        ) && d == modified_diff(a[i], named(b, a[i].name));
    let n = a[i].name;
    let j = choose|j: int| 0 <= j < b.len() && #[trigger] b[j].name == n;
    lemma_unique_named(b, j);
    lemma_unique_named(a, i);
    assert(b[j].name == n);
    lemma_modified_member(b, a, swap_diff(d));
    assert(differs(b[j], named(a, b[j].name)));
    assert(swap_diff(d) == modified_diff(b[j], named(a, b[j].name)));
}

/// Comparing two structures in the other order swaps `added` and `removed`
/// (keeping their order) and swaps the before and after values of each
/// `modified` entry, when neither structure repeats a column name.
pub proof fn lemma_diff_symmetry(a: TableView, b: TableView)
    requires
        unique_names(a.columns),
        unique_names(b.columns),
    ensures
        added_diffs(b.columns, a.columns) == swap_diffs(removed_diffs(a.columns, b.columns)),
        removed_diffs(b.columns, a.columns) == swap_diffs(added_diffs(a.columns, b.columns)),
        forall|d: DiffView|
            #[trigger] modified_diffs(a.columns, b.columns).contains(d) <==> modified_diffs(
                b.columns,
                a.columns,
            ).contains(swap_diff(d)),
{
    let (x, y) = (a.columns, b.columns);
    lemma_added_is_swapped_removed(x, y);
    lemma_added_is_swapped_removed(y, x);
    lemma_swap_twice(removed_diffs(y, x));
    assert forall|d: DiffView| #[trigger]
        modified_diffs(x, y).contains(d) <==> modified_diffs(y, x).contains(swap_diff(d)) by {
        if modified_diffs(x, y).contains(d) {
            lemma_modified_swaps(x, y, d);
        }
        if modified_diffs(y, x).contains(swap_diff(d)) {
            lemma_modified_swaps(y, x, swap_diff(d));
            assert(swap_diff(swap_diff(d)) == d);
        }
    }
}

/// `r1 - r2` when it fits in an `i64`.
pub open spec fn row_count_delta(r1: i64, r2: i64) -> Option<i64> {
    if i64::MIN <= r1 - r2 <= i64::MAX {
        Some((r1 - r2) as i64)
    } else {
        None
    }
}

/// Swapping the two sources negates the row-count difference; for row
/// counts, which are never negative, both differences exist.
pub proof fn lemma_row_count_delta_negates(r1: i64, r2: i64)
    ensures
        r1 >= 0 && r2 >= 0 ==> row_count_delta(r1, r2) is Some && row_count_delta(r2, r1) is Some,
        row_count_delta(r1, r2) is Some && row_count_delta(r2, r1) is Some ==> row_count_delta(
            r1,
            r2,
        )->Some_0 == -row_count_delta(r2, r1)->Some_0,
{
}

impl MetadataFetcher {
    /// The column-level diff of `table1` against `table2`: an `added` entry
    /// for each column of `table2` whose name `table1` lacks (in `table2`'s
    /// order), then a `removed` entry for each column of `table1` whose name
    /// `table2` lacks, then a `modified` entry for each column of `table1`
    /// whose namesake in `table2` differs in data type, nullability or
    /// default value (both in `table1`'s order).
    pub fn compare_structure(table1: &TableInfo, table2: &TableInfo) -> (r: Vec<StructureDiff>)
        ensures
            diffs_view(r@) == structure_diff(table1@.columns, table2@.columns),
    {
        let ghost src = table1@.columns;
        let ghost tgt = table2@.columns;
        let c1 = &table1.columns;
        let c2 = &table2.columns;
        let mut diffs: Vec<StructureDiff> = Vec::new();
        let mut i: usize = 0;
        while i < c2.len()
            invariant
                i <= c2.len(),
                src == columns_view(c1@),
                tgt == columns_view(c2@),
                diffs_view(diffs@) == added_diffs(src, tgt.take(i as int)),
            decreases c2.len() - i,
        {
            let col = &c2[i];
            proof {
                assert(tgt.take(i as int + 1).drop_last() =~= tgt.take(i as int));
                assert(tgt.take(i as int + 1).last() == tgt[i as int]);
            }
            if find_column(c1, &col.name).is_none() {
                let d = StructureDiff {
                    column_name: col.name.clone(),
                    diff_type: DiffKind::Added,
                    source1_value: None,
                    source2_value: Some(describe_column(col)),
                };
                let ghost before = diffs@;
                diffs.push(d);
                assert(diffs_view(diffs@) =~= diffs_view(before).push(d@));
            }
            i = i + 1;
        }
        assert(tgt.take(c2.len() as int) =~= tgt);
        let ghost added = added_diffs(src, tgt);
        i = 0;
        while i < c1.len()
            invariant
                i <= c1.len(),
                src == columns_view(c1@),
                tgt == columns_view(c2@),
                diffs_view(diffs@) == added + removed_diffs(src.take(i as int), tgt),
            decreases c1.len() - i,
        {
            let col = &c1[i];
            proof {
                assert(src.take(i as int + 1).drop_last() =~= src.take(i as int));
                assert(src.take(i as int + 1).last() == src[i as int]);
            }
            if find_column(c2, &col.name).is_none() {
                let d = StructureDiff {
                    column_name: col.name.clone(),
                    diff_type: DiffKind::Removed,
                    source1_value: Some(describe_column(col)),
                    source2_value: None,
                };
                let ghost before = diffs@;
                diffs.push(d);
                assert(diffs_view(diffs@) =~= diffs_view(before).push(d@));
                assert(added + removed_diffs(src.take(i as int + 1), tgt) =~= (added
                    + removed_diffs(src.take(i as int), tgt)).push(d@));
            }
            i = i + 1;
        }
        assert(src.take(c1.len() as int) =~= src);
        let ghost removed = removed_diffs(src, tgt);
        i = 0;
        while i < c1.len()
            invariant
                i <= c1.len(),
                src == columns_view(c1@),
                tgt == columns_view(c2@),
                diffs_view(diffs@) == added + removed + modified_diffs(src.take(i as int), tgt),
            decreases c1.len() - i,
        {
            let col = &c1[i];
            proof {
                assert(src.take(i as int + 1).drop_last() =~= src.take(i as int));
                assert(src.take(i as int + 1).last() == src[i as int]);
            }
            match find_column(c2, &col.name) {
                Some(j) => {
                    let other = &c2[j];
                    proof {
                        lemma_named_at(tgt, col.name@, j as int);
                    }
                    if !(col.data_type == other.data_type) || col.is_nullable != other.is_nullable
                        || !same_opt_str(&col.default_value, &other.default_value) {
                        let d = StructureDiff {
                            column_name: col.name.clone(),
                            diff_type: DiffKind::Modified,
                            source1_value: Some(describe_column(col)),
                            source2_value: Some(describe_column(other)),
                        };
                        let ghost before = diffs@;
                        diffs.push(d);
                        assert(diffs_view(diffs@) =~= diffs_view(before).push(d@));
                        assert(added + removed + modified_diffs(src.take(i as int + 1), tgt) =~= (
                        added + removed + modified_diffs(src.take(i as int), tgt)).push(d@));
                    }
                },
                None => {},
            }
            i = i + 1;
        }
        assert(src.take(c1.len() as int) =~= src);
        diffs
    }
}

impl MetadataFetcher {
    /// `row_count1 - row_count2`, or `None` where it does not fit in an `i64`.
    pub fn row_count_diff(row_count1: i64, row_count2: i64) -> (r: Option<i64>)
        ensures
            r == row_count_delta(row_count1, row_count2),
    {
        if row_count2 >= 0 {
            if row_count1 >= i64::MIN + row_count2 {
                Some(row_count1 - row_count2)
            } else {
                None
            }
        } else {
            if row_count1 <= i64::MAX + row_count2 {
                Some(row_count1 - row_count2)
            } else {
                None
            }
        }
    }

    /// Assembles the comparison of `table_name` from what was fetched from
    /// each source: both structures, then both row counts. The first failed
    /// fetch, in that order, fails the whole comparison. Otherwise each
    /// structure gets its source's row count, the diff is taken of the
    /// structures as fetched, and the row-count difference is
    /// `row_count1 - row_count2`.
    pub fn compare_tables(
        table_name: &str,
        table1: Result<TableInfo, MetadataError>,
        table2: Result<TableInfo, MetadataError>,
        row_count1: Result<i64, MetadataError>,
        row_count2: Result<i64, MetadataError>,
    ) -> (r: Result<TableComparison, MetadataError>)
        ensures
            r is Ok <==> table1 is Ok && table2 is Ok && row_count1 is Ok && row_count2 is Ok,
            table1 is Err ==> r == Err::<TableComparison, MetadataError>(table1->Err_0),
            table1 is Ok && table2 is Err ==> r == Err::<TableComparison, MetadataError>(
                table2->Err_0,
            ),
            table1 is Ok && table2 is Ok && row_count1 is Err ==> r == Err::<
                TableComparison,
                MetadataError,
            >(row_count1->Err_0),
            table1 is Ok && table2 is Ok && row_count1 is Ok && row_count2 is Err ==> r == Err::<
                TableComparison,
                MetadataError,
            >(row_count2->Err_0),
            r is Ok ==> {
                let c = r->Ok_0;
                let t1 = table1->Ok_0@;
                let t2 = table2->Ok_0@;
                &&& c.table_name@ == table_name@
                &&& c.source1@ == (TableView { row_count: Some(row_count1->Ok_0), ..t1 })
                &&& c.source2@ == (TableView { row_count: Some(row_count2->Ok_0), ..t2 })
                &&& diffs_view(c.structure_diff@) == structure_diff(t1.columns, t2.columns)
                &&& c.row_count_diff == row_count_delta(row_count1->Ok_0, row_count2->Ok_0)
            },
    {
        let table1 = match table1 {
            Ok(t) => t,
            Err(e) => return Err(e),
        };
        let table2 = match table2 {
            Ok(t) => t,
            Err(e) => return Err(e),
        };
        let row_count1 = match row_count1 {
            Ok(n) => n,
            Err(e) => return Err(e),
        };
        let row_count2 = match row_count2 {
            Ok(n) => n,
            Err(e) => return Err(e),
        };
        let structure_diff = Self::compare_structure(&table1, &table2);
        Ok(
            TableComparison {
                table_name: table_name.to_owned(),
                source1: table1.with_row_count(row_count1),
                source2: table2.with_row_count(row_count2),
                structure_diff,
                row_count_diff: Self::row_count_diff(row_count1, row_count2),
            },
        )
    }
}

} // verus!
