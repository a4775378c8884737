//! The cached document: a flat sequence of cells, and the encoding of the
//! canonical metadata values into it.
use vstd::prelude::*;
use crate::model::{columns_view, opt_str_view, strs_view, ColumnInfo, ColumnView, TableInfo, TableView};

verus! {

/// One cell of a cached document.
#[derive(Clone, Debug, PartialEq)]
pub enum Cell {
    Null,
    Flag(bool),
    Int(i64),
    Text(String),
}

pub enum CellView {
    Null,
    Flag(bool),
    Int(i64),
    Text(Seq<char>),
}

impl View for Cell {
    type V = CellView;

    open spec fn view(&self) -> CellView {
        match self {
            Cell::Null => CellView::Null,
            Cell::Flag(b) => CellView::Flag(*b),
            Cell::Int(n) => CellView::Int(*n),
            Cell::Text(s) => CellView::Text(s@),
        }
    }
}

impl Cell {
    /// A copy with the same view.
    pub fn copied(&self) -> (r: Cell)
        ensures
            r@ == self@,
    {
        match self {
            Cell::Null => Cell::Null,
            Cell::Flag(b) => Cell::Flag(*b),
            Cell::Int(n) => Cell::Int(*n),
            Cell::Text(s) => Cell::Text(s.clone()),
        }
    }
}

/// The view of a document.
pub open spec fn cells_view(v: Seq<Cell>) -> Seq<CellView> {
    v.map_values(|c: Cell| c@)
}

/// Copies a document, keeping its view.
pub fn copy_cells(v: &Vec<Cell>) -> (r: Vec<Cell>)
    ensures
        cells_view(r@) == cells_view(v@),
{
    let mut r: Vec<Cell> = Vec::new();
    let mut i: usize = 0;
    while i < v.len()
        invariant
            i <= v.len(),
            r.len() == i,
            forall|k: int| 0 <= k < i ==> (#[trigger] r@[k])@ == v@[k]@,
        decreases v.len() - i,
    {
        r.push(v[i].copied());
        i = i + 1;
    }
    assert(cells_view(r@) =~= cells_view(v@));
    r
}

pub open spec fn opt_text_cell(o: Option<Seq<char>>) -> CellView {
    match o {
        Some(s) => CellView::Text(s),
        None => CellView::Null,
    }
}

pub open spec fn opt_int_cell(o: Option<i64>) -> CellView {
    match o {
        Some(n) => CellView::Int(n),
        None => CellView::Null,
    }
}

pub open spec fn text_cells(v: Seq<Seq<char>>) -> Seq<CellView> {
    v.map_values(|s: Seq<char>| CellView::Text(s))
}

/// A column: name, data type, nullability, default (or null), the number
/// of constraints, then each constraint.
pub open spec fn encode_column(c: ColumnView) -> Seq<CellView> {
    seq![
        CellView::Text(c.name),
        CellView::Text(c.data_type),
        CellView::Flag(c.is_nullable),
        opt_text_cell(c.default_value),
        CellView::Int(c.constraints.len() as i64),
    ] + text_cells(c.constraints)
}

pub open spec fn encode_columns(cs: Seq<ColumnView>) -> Seq<CellView>
    decreases cs.len(),
{
    if cs.len() == 0 {
        Seq::empty()
    } else {
        encode_columns(cs.drop_last()) + encode_column(cs.last())
    }
}

/// A table: name, schema (or null), row count (or null), the number of
/// columns, then each column.
pub open spec fn encode_table(t: TableView) -> Seq<CellView> {
    seq![
        CellView::Text(t.name),
        opt_text_cell(t.schema),
        opt_int_cell(t.row_count),
        CellView::Int(t.columns.len() as i64),
    ] + encode_columns(t.columns)
}

/// Every count in the table fits the document's integer cells.
pub open spec fn table_encodable(t: TableView) -> bool {
    &&& t.columns.len() <= i64::MAX
    &&& forall|i: int| 0 <= i < t.columns.len() ==> (#[trigger] t.columns[i]).constraints.len() <= i64::MAX
}

pub open spec fn opt_text_of(c: CellView) -> Option<Option<Seq<char>>> {
    match c {
        CellView::Null => Some(None),
        CellView::Text(s) => Some(Some(s)),
        _ => None,
    }
}

pub open spec fn opt_int_of(c: CellView) -> Option<Option<i64>> {
    match c {
        CellView::Null => Some(None),
        CellView::Int(n) => Some(Some(n)),
        _ => None,
    }
}

pub open spec fn count_of(c: CellView) -> Option<nat> {
    match c {
        CellView::Int(n) => if n >= 0 {
            Some(n as nat)
        } else {
            None
        },
        _ => None,
    }
}

/// The `m` texts that start at `p`, if the cells there are all texts.
pub open spec fn texts_at(d: Seq<CellView>, p: int, m: nat) -> Option<Seq<Seq<char>>> {
    if 0 <= p && p + m <= d.len() && forall|i: int| p <= i < p + m ==> #[trigger] d[i] is Text {
        Some(Seq::new(m, |i: int| d[p + i]->Text_0))
    } else {
        None
    }
}

/// The column that starts at `p`, and where it ends.
pub open spec fn column_at(d: Seq<CellView>, p: int) -> Option<(ColumnView, int)> {
    if 0 <= p && p + 5 <= d.len() && d[p] is Text && d[p + 1] is Text && d[p + 2] is Flag
        && opt_text_of(d[p + 3]) is Some && count_of(d[p + 4]) is Some {
        let m = count_of(d[p + 4])->Some_0;
        match texts_at(d, p + 5, m) {
            Some(cs) => Some(
                (
                    ColumnView {
                        name: d[p]->Text_0,
                        data_type: d[p + 1]->Text_0,
                        is_nullable: d[p + 2]->Flag_0,
                        default_value: opt_text_of(d[p + 3])->Some_0,
                        constraints: cs,
                    },
                    p + 5 + m,
                ),
            ),
            None => None,
        }
    } else {
        None
    }
}

/// The `n` columns that start at `p`, and where they end.
pub open spec fn columns_at(d: Seq<CellView>, p: int, n: nat) -> Option<(Seq<ColumnView>, int)>
    decreases n,
{
    if n == 0 {
        Some((Seq::empty(), p))
    } else {
        match columns_at(d, p, (n - 1) as nat) {
            Some((cs, q)) => match column_at(d, q) {
                Some((c, r)) => Some((cs.push(c), r)),
                None => None,
            },
            None => None,
        }
    }
}

/// The table that starts at `p`, and where it ends.
pub open spec fn table_at(d: Seq<CellView>, p: int) -> Option<(TableView, int)> {
    if 0 <= p && p + 4 <= d.len() && d[p] is Text && opt_text_of(d[p + 1]) is Some && opt_int_of(
        d[p + 2],
    ) is Some && count_of(d[p + 3]) is Some {
        match columns_at(d, p + 4, count_of(d[p + 3])->Some_0) {
            Some((cs, q)) => Some(
                (
                    TableView {
                        name: d[p]->Text_0,
                        schema: opt_text_of(d[p + 1])->Some_0,
                        row_count: opt_int_of(d[p + 2])->Some_0,
                        columns: cs,
                    },
                    q,
                ),
            ),
            None => None,
        }
    } else {
        None
    }
}

/// The table that a document holds, if it holds exactly one.
pub open spec fn decode_table(d: Seq<CellView>) -> Option<TableView> {
    match table_at(d, 0) {
        Some((t, q)) => if q == d.len() {
            Some(t)
        } else {
            None
        },
        None => None,
    }
}

proof fn lemma_column_round_trip(pre: Seq<CellView>, c: ColumnView, rest: Seq<CellView>)
    requires
        c.constraints.len() <= i64::MAX,
    ensures
        column_at(pre + encode_column(c) + rest, pre.len() as int) == Some(
            (c, (pre.len() + encode_column(c).len()) as int),
        ),
{
    let d = pre + encode_column(c) + rest;
    let p = pre.len() as int;
    let m = c.constraints.len();
    assert(d[p] == CellView::Text(c.name));
    assert(d[p + 1] == CellView::Text(c.data_type));
    assert(d[p + 2] == CellView::Flag(c.is_nullable));
    assert(d[p + 3] == opt_text_cell(c.default_value));
    assert(d[p + 4] == CellView::Int(m as i64));
    assert forall|i: int| p + 5 <= i < p + 5 + m implies #[trigger] d[i] == CellView::Text(
        c.constraints[i - p - 5],
    ) by {
        assert(d[i] == encode_column(c)[i - p]);
    }
    assert(texts_at(d, p + 5, m) == Some(c.constraints)) by {
        assert(Seq::new(m, |i: int| d[p + 5 + i]->Text_0) =~= c.constraints);
    }
}

proof fn lemma_columns_round_trip(pre: Seq<CellView>, cs: Seq<ColumnView>, rest: Seq<CellView>)
    requires
        forall|i: int| 0 <= i < cs.len() ==> (#[trigger] cs[i]).constraints.len() <= i64::MAX,
    ensures
        columns_at(pre + encode_columns(cs) + rest, pre.len() as int, cs.len()) == Some(
            (cs, (pre.len() + encode_columns(cs).len()) as int),
        ),
    decreases cs.len(),
{
    if cs.len() > 0 {
        let init = cs.drop_last();
        let last = cs.last();
        assert(cs[cs.len() - 1] == last);
        let d = pre + encode_columns(cs) + rest;
        assert(d =~= pre + encode_columns(init) + (encode_column(last) + rest));
        lemma_columns_round_trip(pre, init, encode_column(last) + rest);
        assert(d =~= (pre + encode_columns(init)) + encode_column(last) + rest);
        lemma_column_round_trip(pre + encode_columns(init), last, rest);
        assert(init.push(last) =~= cs);
    } else {
        assert(cs =~= Seq::<ColumnView>::empty());
    }
}

proof fn lemma_table_round_trip_at(pre: Seq<CellView>, t: TableView, rest: Seq<CellView>)
    requires
        table_encodable(t),
    ensures
        table_at(pre + encode_table(t) + rest, pre.len() as int) == Some(
            (t, (pre.len() + encode_table(t).len()) as int),
        ),
{
    let d = pre + encode_table(t) + rest;
    let p = pre.len() as int;
    let head = seq![
        CellView::Text(t.name),
        opt_text_cell(t.schema),
        opt_int_cell(t.row_count),
        CellView::Int(t.columns.len() as i64),
    ];
    assert(d[p] == head[0]);
    assert(d[p + 1] == head[1]);
    assert(d[p + 2] == head[2]);
    assert(d[p + 3] == head[3]);
    assert(d =~= (pre + head) + encode_columns(t.columns) + rest);
    lemma_columns_round_trip(pre + head, t.columns, rest);
}

/// Decoding the encoding of a table gives the table back.
pub proof fn lemma_table_round_trip(t: TableView)
    requires
        table_encodable(t),
    ensures
        decode_table(encode_table(t)) == Some(t),
{
    let e = encode_table(t);
    lemma_table_round_trip_at(Seq::empty(), t, Seq::empty());
    assert(Seq::<CellView>::empty() + e + Seq::<CellView>::empty() =~= e);
}

proof fn lemma_columns_at_stays_none(d: Seq<CellView>, p: int, k: nat, n: nat)
    requires
        columns_at(d, p, k) is None,
        k <= n,
    ensures
        columns_at(d, p, n) is None,
    decreases n - k,
{
    if k < n {
        lemma_columns_at_stays_none(d, p, k, (n - 1) as nat);
    }
}

fn push_opt_text(d: &mut Vec<Cell>, o: &Option<String>)
    ensures
        cells_view(final(d)@) == cells_view(old(d)@).push(opt_text_cell(opt_str_view(*o))),
{
    let c = match o {
        Some(s) => Cell::Text(s.clone()),
        None => Cell::Null,
    };
    d.push(c);
    assert(cells_view(d@) =~= cells_view(old(d)@).push(opt_text_cell(opt_str_view(*o))));
}

pub(crate) fn push_cell(d: &mut Vec<Cell>, c: Cell)
    ensures
        cells_view(final(d)@) == cells_view(old(d)@).push(c@),
{
    d.push(c);
    assert(cells_view(d@) =~= cells_view(old(d)@).push(c@));
}

fn push_column(d: &mut Vec<Cell>, c: &ColumnInfo)
    ensures
        cells_view(final(d)@) == cells_view(old(d)@) + encode_column(c@),
{
    let ghost start = cells_view(d@);
    push_cell(d, Cell::Text(c.name.clone()));
    push_cell(d, Cell::Text(c.data_type.clone()));
    push_cell(d, Cell::Flag(c.is_nullable));
    push_opt_text(d, &c.default_value);
    push_cell(d, Cell::Int(c.constraints.len() as i64));
    let ghost head = cells_view(d@);
    assert(head =~= start + encode_column(c@).take(5));
    let mut i: usize = 0;
    while i < c.constraints.len()
        invariant
            i <= c.constraints.len(),
            cells_view(d@) == head + text_cells(strs_view(c.constraints@).take(i as int)),
        decreases c.constraints.len() - i,
    {
        push_cell(d, Cell::Text(c.constraints[i].clone()));
        i = i + 1;
        assert(text_cells(strs_view(c.constraints@).take(i as int)) =~= text_cells(
            strs_view(c.constraints@).take(i - 1),
        ).push(CellView::Text(c.constraints@[i - 1]@)));
    }
    assert(strs_view(c.constraints@).take(i as int) =~= strs_view(c.constraints@));
    assert(cells_view(d@) =~= start + encode_column(c@));
}

/// The document that holds `t`; see `encode_table`.
pub fn table_to_document(t: &TableInfo) -> (r: Vec<Cell>)
    ensures
        cells_view(r@) == encode_table(t@),
{
    let mut d: Vec<Cell> = Vec::new();
    push_cell(&mut d, Cell::Text(t.name.clone()));
    push_opt_text(&mut d, &t.schema);
    let rc = match t.row_count {
        Some(n) => Cell::Int(n),
        None => Cell::Null,
    };
    push_cell(&mut d, rc);
    push_cell(&mut d, Cell::Int(t.columns.len() as i64));
    let ghost head = cells_view(d@);
    let ghost cs = t@.columns;
    let mut i: usize = 0;
    while i < t.columns.len()
        invariant
            i <= t.columns.len(),
            cs == columns_view(t.columns@),
            cells_view(d@) == head + encode_columns(cs.take(i as int)),
        decreases t.columns.len() - i,
    {
        push_column(&mut d, &t.columns[i]);
        i = i + 1;
        assert(cs.take(i as int).drop_last() =~= cs.take(i - 1));
        assert(cs.take(i as int).last() == t.columns@[i - 1]@);
        assert(head + encode_columns(cs.take(i as int)) =~= head + encode_columns(cs.take(i - 1))
            + encode_column(t.columns@[i - 1]@));
    }
    assert(cs.take(i as int) =~= cs);
    assert(cells_view(d@) =~= encode_table(t@));
    d
}

pub(crate) fn text_at(d: &Vec<Cell>, p: usize) -> (r: Option<String>)
    requires
        p < d.len(),
    ensures
        match r {
            Some(s) => d@[p as int]@ == CellView::Text(s@),
            None => !(d@[p as int]@ is Text),
        },
{
    match &d[p] {
        Cell::Text(s) => Some(s.clone()),
        _ => None,
    }
}

fn opt_text_at(d: &Vec<Cell>, p: usize) -> (r: Option<Option<String>>)
    requires
        p < d.len(),
    ensures
        match r {
            Some(o) => opt_text_of(d@[p as int]@) == Some(opt_str_view(o)),
            None => opt_text_of(d@[p as int]@) is None,
        },
{
    match &d[p] {
        Cell::Text(s) => Some(Some(s.clone())),
        Cell::Null => Some(None),
        _ => None,
    }
}

pub(crate) fn count_at(d: &Vec<Cell>, p: usize) -> (r: Option<i64>)
    requires
        p < d.len(),
    ensures
        match r {
            Some(n) => n >= 0 && count_of(d@[p as int]@) == Some(n as nat),
            None => count_of(d@[p as int]@) is None,
        },
{
    match &d[p] {
        Cell::Int(n) => if *n >= 0 {
            Some(*n)
        } else {
            None
        },
        _ => None,
    }
}

fn column_from_cells(d: &Vec<Cell>, p: usize) -> (r: Option<(ColumnInfo, usize)>)
    ensures
        match r {
            Some((c, q)) => column_at(cells_view(d@), p as int) == Some((c@, q as int)),
            None => column_at(cells_view(d@), p as int) is None,
        },
{
    let ghost dv = cells_view(d@);
    assert(forall|i: int| 0 <= i < d.len() ==> dv[i] == (#[trigger] d@[i])@);
    if d.len() < 5 || p > d.len() - 5 {
        return None;
    }
    let name = match text_at(d, p) {
        Some(s) => s,
        None => return None,
    };
    let data_type = match text_at(d, p + 1) {
        Some(s) => s,
        None => return None,
    };
    let is_nullable = match &d[p + 2] {
        Cell::Flag(b) => *b,
        _ => return None,
    };
    let default_value = match opt_text_at(d, p + 3) {
        Some(o) => o,
        None => return None,
    };
    let n = match count_at(d, p + 4) {
        Some(n) => n,
        None => return None,
    };
    let start = p + 5;
    let avail = d.len() - start;
    if n as u64 > avail as u64 {
        return None;
    }
    let m = n as usize;
    assert(count_of(dv[p + 4]) == Some(m as nat));
    let mut constraints: Vec<String> = Vec::new();
    let mut j: usize = 0;
    while j < m
        invariant
            j <= m,
            start + m <= d.len(),
            start == p + 5,
            dv == cells_view(d@),
            column_at(dv, p as int) == match texts_at(dv, p + 5, m as nat) {
                Some(cs) => Some(
                    (
                        ColumnView {
                            name: name@,
                            data_type: data_type@,
                            is_nullable,
                            default_value: opt_str_view(default_value),
                            constraints: cs,
                        },
                        p + 5 + m,
                    ),
                ),
                None => None,
            },
            constraints.len() == j,
            forall|i: int| 0 <= i < j ==> (#[trigger] dv[start + i]) is Text,
            forall|i: int| 0 <= i < j ==> (#[trigger] constraints@[i])@ == dv[start + i]->Text_0,
        decreases m - j,
    {
        match text_at(d, start + j) {
            Some(s) => constraints.push(s),
            None => {
                assert(!(dv[start + j] is Text));
                return None;
            },
        }
        j = j + 1;
    }
    assert(forall|i: int| start <= i < start + m ==> #[trigger] dv[i] is Text) by {
        assert forall|i: int| start <= i < start + m implies #[trigger] dv[i] is Text by {
            assert(dv[start + (i - start)] is Text);
        }
    }
    assert(strs_view(constraints@) =~= Seq::new(m as nat, |i: int| dv[start + i]->Text_0));
    assert(texts_at(dv, p + 5, m as nat) == Some(strs_view(constraints@)));
    let c = ColumnInfo { name, data_type, is_nullable, default_value, constraints };
    assert(dv[p as int] == CellView::Text(c.name@));
    assert(dv[p + 2] == CellView::Flag(is_nullable));
    assert(column_at(dv, p as int) == Some((c@, (start + m) as int)));
    Some((c, start + m))
}

fn table_from_cells(d: &Vec<Cell>, p: usize) -> (r: Option<(TableInfo, usize)>)
    ensures
        match r {
            Some((t, q)) => table_at(cells_view(d@), p as int) == Some((t@, q as int)),
            None => table_at(cells_view(d@), p as int) is None,
        },
{
    let ghost dv = cells_view(d@);
    assert(forall|i: int| 0 <= i < d.len() ==> dv[i] == (#[trigger] d@[i])@);
    if d.len() < 4 || p > d.len() - 4 {
        return None;
    }
    let name = match text_at(d, p) {
        Some(s) => s,
        None => return None,
    };
    let schema = match opt_text_at(d, p + 1) {
        Some(o) => o,
        None => return None,
    };
    let row_count = match &d[p + 2] {
        Cell::Int(n) => Some(*n),
        Cell::Null => None,
        _ => return None,
    };
    let n = match count_at(d, p + 3) {
        Some(n) => n,
        None => return None,
    };
    let mut columns: Vec<ColumnInfo> = Vec::new();
    let mut pos: usize = p + 4;
    let mut k: i64 = 0;
    while k < n
        invariant
            0 <= k <= n,
            dv == cells_view(d@),
            p + 4 <= d.len(),
            table_at(dv, p as int) == match columns_at(dv, p + 4, n as nat) {
                Some((cs, q)) => Some(
                    (
                        TableView {
                            name: name@,
                            schema: opt_str_view(schema),
                            row_count,
                            columns: cs,
                        },
                        q,
                    ),
                ),
                None => None,
            },
            columns_at(dv, p + 4, k as nat) == Some((columns_view(columns@), pos as int)),
        decreases n - k,
    {
        match column_from_cells(d, pos) {
            Some((c, q)) => {
                let ghost before = columns@;
                columns.push(c);
                assert(columns_view(columns@) =~= columns_view(before).push(c@));
                pos = q;
            },
            None => {
                proof {
                    lemma_columns_at_stays_none(dv, p + 4, (k + 1) as nat, n as nat);
                }
                return None;
            },
        }
        k = k + 1;
    }
    Some((TableInfo { name, schema, row_count, columns }, pos))
}

/// The table that `d` holds, if it holds exactly one; see `decode_table`.
pub fn table_from_document(d: &Vec<Cell>) -> (r: Option<TableInfo>)
    ensures
        match r {
            Some(t) => decode_table(cells_view(d@)) == Some(t@),
            None => decode_table(cells_view(d@)) is None,
        },
{
    match table_from_cells(d, 0) {
        Some((t, q)) => if q == d.len() {
            Some(t)
        } else {
            None
        },
        None => None,
    }
}

pub open spec fn encode_table_seq(ts: Seq<TableView>) -> Seq<CellView>
    decreases ts.len(),
{
    if ts.len() == 0 {
        Seq::empty()
    } else {
        encode_table_seq(ts.drop_last()) + encode_table(ts.last())
    }
}

/// A list of tables: the number of tables, then each table.
pub open spec fn encode_tables(ts: Seq<TableView>) -> Seq<CellView> {
    seq![CellView::Int(ts.len() as i64)] + encode_table_seq(ts)
}

/// The `n` tables that start at `p`, and where they end.
pub open spec fn tables_at(d: Seq<CellView>, p: int, n: nat) -> Option<(Seq<TableView>, int)>
    decreases n,
{
    if n == 0 {
        Some((Seq::empty(), p))
    } else {
        match tables_at(d, p, (n - 1) as nat) {
            Some((ts, q)) => match table_at(d, q) {
                Some((t, r)) => Some((ts.push(t), r)),
                None => None,
            },
            None => None,
        }
    }
}

/// The list of tables that a document holds, if it holds exactly one list.
pub open spec fn decode_tables(d: Seq<CellView>) -> Option<Seq<TableView>> {
    if d.len() >= 1 && count_of(d[0]) is Some {
        match tables_at(d, 1, count_of(d[0])->Some_0) {
            Some((ts, q)) => if q == d.len() {
                Some(ts)
            } else {
                None
            },
            None => None,
        }
    } else {
        None
    }
}

/// The view of a list of tables.
pub open spec fn tables_view(v: Seq<TableInfo>) -> Seq<TableView> {
    v.map_values(|t: TableInfo| t@)
}

proof fn lemma_tables_at_stays_none(d: Seq<CellView>, p: int, k: nat, n: nat)
    requires
        tables_at(d, p, k) is None,
        k <= n,
    ensures
        tables_at(d, p, n) is None,
    decreases n - k,
{
    if k < n {
        lemma_tables_at_stays_none(d, p, k, (n - 1) as nat);
    }
}

pub(crate) fn append_cells(d: &mut Vec<Cell>, more: Vec<Cell>)
    ensures
        cells_view(final(d)@) == cells_view(old(d)@) + cells_view(more@),
{
    let mut more = more;
    let ghost start = cells_view(d@);
    let ghost mv = cells_view(more@);
    d.append(&mut more);
    assert(cells_view(d@) =~= start + mv);
}

/// The document that holds the list `ts`; see `encode_tables`.
pub fn tables_to_document(ts: &Vec<TableInfo>) -> (r: Vec<Cell>)
    ensures
        cells_view(r@) == encode_tables(tables_view(ts@)),
{
    let mut d: Vec<Cell> = Vec::new();
    push_cell(&mut d, Cell::Int(ts.len() as i64));
    let ghost head = cells_view(d@);
    let ghost tv = tables_view(ts@);
    let mut i: usize = 0;
    while i < ts.len()
        invariant
            i <= ts.len(),
            tv == tables_view(ts@),
            cells_view(d@) == head + encode_table_seq(tv.take(i as int)),
        decreases ts.len() - i,
    {
        append_cells(&mut d, table_to_document(&ts[i]));
        i = i + 1;
        assert(tv.take(i as int).drop_last() =~= tv.take(i - 1));
        assert(tv.take(i as int).last() == ts@[i - 1]@);
        assert(head + encode_table_seq(tv.take(i as int)) =~= head + encode_table_seq(tv.take(i - 1))
            + encode_table(ts@[i - 1]@));
    }
    assert(tv.take(i as int) =~= tv);
    assert(cells_view(d@) =~= encode_tables(tv));
    d
}

/// The list of tables that `d` holds, if it holds exactly one list; see
/// `decode_tables`.
pub fn tables_from_document(d: &Vec<Cell>) -> (r: Option<Vec<TableInfo>>)
    ensures
        match r {
            Some(ts) => decode_tables(cells_view(d@)) == Some(tables_view(ts@)),
            None => decode_tables(cells_view(d@)) is None,
        },
{
    let ghost dv = cells_view(d@);
    if d.len() < 1 {
        return None;
    }
    assert(dv[0] == d@[0]@);
    let n = match count_at(d, 0) {
        Some(n) => n,
        None => return None,
    };
    let mut tables: Vec<TableInfo> = Vec::new();
    let mut pos: usize = 1;
    let mut k: i64 = 0;
    while k < n
        invariant
            0 <= k <= n,
            dv == cells_view(d@),
            count_of(dv[0]) == Some(n as nat),
            tables_at(dv, 1, k as nat) == Some((tables_view(tables@), pos as int)),
        decreases n - k,
    {
        match table_from_cells(d, pos) {
            Some((t, q)) => {
                let ghost before = tables@;
                tables.push(t);
                assert(tables_view(tables@) =~= tables_view(before).push(t@));
                pos = q;
            },
            None => {
                proof {
                    lemma_tables_at_stays_none(dv, 1, (k + 1) as nat, n as nat);
                }
                return None;
            },
        }
        k = k + 1;
    }
    if pos == d.len() {
        Some(tables)
    } else {
        None
    }
}

proof fn lemma_table_seq_round_trip(pre: Seq<CellView>, ts: Seq<TableView>, rest: Seq<CellView>)
    requires
        forall|i: int| 0 <= i < ts.len() ==> table_encodable(#[trigger] ts[i]),
    ensures
        tables_at(pre + encode_table_seq(ts) + rest, pre.len() as int, ts.len()) == Some(
            (ts, (pre.len() + encode_table_seq(ts).len()) as int),
        ),
    decreases ts.len(),
{
    if ts.len() > 0 {
        let init = ts.drop_last();
        let last = ts.last();
        assert(ts[ts.len() - 1] == last);
        let d = pre + encode_table_seq(ts) + rest;
        assert(d =~= pre + encode_table_seq(init) + (encode_table(last) + rest));
        lemma_table_seq_round_trip(pre, init, encode_table(last) + rest);
        assert(d =~= (pre + encode_table_seq(init)) + encode_table(last) + rest);
        lemma_table_round_trip_at(pre + encode_table_seq(init), last, rest);
        assert(init.push(last) =~= ts);
    } else {
        assert(ts =~= Seq::<TableView>::empty());
    }
}

/// Decoding the encoding of a list of tables gives the list back.
pub proof fn lemma_tables_round_trip(ts: Seq<TableView>)
    requires
        ts.len() <= i64::MAX,
        forall|i: int| 0 <= i < ts.len() ==> table_encodable(#[trigger] ts[i]),
    ensures
        decode_tables(encode_tables(ts)) == Some(ts),
{
    let head = seq![CellView::Int(ts.len() as i64)];
    let e = encode_tables(ts);
    assert(e[0] == CellView::Int(ts.len() as i64));
    lemma_table_seq_round_trip(head, ts, Seq::empty());
    assert(head + encode_table_seq(ts) + Seq::<CellView>::empty() =~= e);
}

} // verus!
