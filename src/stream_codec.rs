//! Encoding of event-stream metadata (topics and registry schemas) into
//! cached documents.
use vstd::prelude::*;
use crate::codec::{
    append_cells, cells_view, count_at, count_of, push_cell, text_at, text_cells, texts_at, Cell,
    CellView,
};
use crate::model::{
    partitions_view, schemas_view, strs_view, topics_view, KafkaTopicInfo, PartitionInfo,
    PartitionView, SchemaInfo, SchemaView, TopicView,
};

verus! {

/// A schema: subject, version, schema type, schema text.
pub open spec fn encode_schema(s: SchemaView) -> Seq<CellView> {
    seq![
        CellView::Text(s.subject),
        CellView::Int(s.version as i64),
        CellView::Text(s.schema_type),
        CellView::Text(s.schema),
    ]
}

pub open spec fn encode_schema_seq(ss: Seq<SchemaView>) -> Seq<CellView>
    decreases ss.len(),
{
    if ss.len() == 0 {
        Seq::empty()
    } else {
        encode_schema_seq(ss.drop_last()) + encode_schema(ss.last())
    }
}

/// A list of schemas: the number of schemas, then each schema.
pub open spec fn encode_schemas(ss: Seq<SchemaView>) -> Seq<CellView> {
    seq![CellView::Int(ss.len() as i64)] + encode_schema_seq(ss)
}

/// The value of an integer cell that fits an `i32`.
pub open spec fn small_int_of(c: CellView) -> Option<i32> {
    match c {
        CellView::Int(n) => if i32::MIN <= n <= i32::MAX {
            Some(n as i32)
        } else {
            None
        },
        _ => None,
    }
}

/// The schema that starts at `p`, and where it ends.
pub open spec fn schema_at(d: Seq<CellView>, p: int) -> Option<(SchemaView, int)> {
    if 0 <= p && p + 4 <= d.len() && d[p] is Text && small_int_of(d[p + 1]) is Some && d[p
        + 2] is Text && d[p + 3] is Text {
        Some(
            (
                SchemaView {
                    subject: d[p]->Text_0,
                    version: small_int_of(d[p + 1])->Some_0,
                    schema_type: d[p + 2]->Text_0,
                    schema: d[p + 3]->Text_0,
                },
                p + 4,
            ),
        )
    } else {
        None
    }
}

pub open spec fn schemas_at(d: Seq<CellView>, p: int, n: nat) -> Option<(Seq<SchemaView>, int)>
    decreases n,
{
    if n == 0 {
        Some((Seq::empty(), p))
    } else {
        match schemas_at(d, p, (n - 1) as nat) {
            Some((ss, q)) => match schema_at(d, q) {
                Some((s, r)) => Some((ss.push(s), r)),
                None => None,
            },
            None => None,
        }
    }
}

/// The list of schemas that a document holds, if it holds exactly one list.
pub open spec fn decode_schemas(d: Seq<CellView>) -> Option<Seq<SchemaView>> {
    if d.len() >= 1 && count_of(d[0]) is Some {
        match schemas_at(d, 1, count_of(d[0])->Some_0) {
            Some((ss, q)) => if q == d.len() {
                Some(ss)
            } else {
                None
            },
            None => None,
        }
    } else {
        None
    }
}

pub open spec fn int_cells(v: Seq<i32>) -> Seq<CellView> {
    v.map_values(|x: i32| CellView::Int(x as i64))
}

/// A list of broker ids: its length, then each id.
pub open spec fn encode_ids(v: Seq<i32>) -> Seq<CellView> {
    seq![CellView::Int(v.len() as i64)] + int_cells(v)
}

/// A list of texts: its length, then each text.
pub open spec fn encode_texts(v: Seq<Seq<char>>) -> Seq<CellView> {
    seq![CellView::Int(v.len() as i64)] + text_cells(v)
}

/// A partition: id, leader, replicas, in-sync replicas.
pub open spec fn encode_partition(pt: PartitionView) -> Seq<CellView> {
    seq![CellView::Int(pt.id as i64), CellView::Int(pt.leader as i64)] + encode_ids(pt.replicas)
        + encode_ids(pt.isr)
}

pub open spec fn encode_partitions(ps: Seq<PartitionView>) -> Seq<CellView>
    decreases ps.len(),
{
    if ps.len() == 0 {
        Seq::empty()
    } else {
        encode_partitions(ps.drop_last()) + encode_partition(ps.last())
    }
}

/// A topic: name, the number of partitions, each partition, then its
/// consumer groups.
pub open spec fn encode_topic(t: TopicView) -> Seq<CellView> {
    seq![CellView::Text(t.name), CellView::Int(t.partitions.len() as i64)] + encode_partitions(
        t.partitions,
    ) + encode_texts(t.consumer_groups)
}

pub open spec fn encode_topic_seq(ts: Seq<TopicView>) -> Seq<CellView>
    decreases ts.len(),
{
    if ts.len() == 0 {
        Seq::empty()
    } else {
        encode_topic_seq(ts.drop_last()) + encode_topic(ts.last())
    }
}

/// A list of topics: the number of topics, then each topic.
pub open spec fn encode_topics(ts: Seq<TopicView>) -> Seq<CellView> {
    seq![CellView::Int(ts.len() as i64)] + encode_topic_seq(ts)
}

/// The list of ids that starts at `p` with its length, and where it ends.
pub open spec fn ids_at(d: Seq<CellView>, p: int) -> Option<(Seq<i32>, int)> {
    if 0 <= p < d.len() && count_of(d[p]) is Some {
        let m = count_of(d[p])->Some_0;
        if p + 1 + m <= d.len() && forall|i: int|
            p + 1 <= i < p + 1 + m ==> #[trigger] small_int_of(d[i]) is Some {
            Some((Seq::new(m, |i: int| small_int_of(d[p + 1 + i])->Some_0), p + 1 + m))
        } else {
            None
        }
    } else {
        None
    }
}

/// The list of texts that starts at `p` with its length, and where it ends.
pub open spec fn text_list_at(d: Seq<CellView>, p: int) -> Option<(Seq<Seq<char>>, int)> {
    if 0 <= p < d.len() && count_of(d[p]) is Some {
        let m = count_of(d[p])->Some_0;
        match texts_at(d, p + 1, m) {
            Some(v) => Some((v, p + 1 + m)),
            None => None,
        }
    } else {
        None
    }
}

/// The partition that starts at `p`, and where it ends.
pub open spec fn partition_at(d: Seq<CellView>, p: int) -> Option<(PartitionView, int)> {
    if 0 <= p && p + 2 <= d.len() && small_int_of(d[p]) is Some && small_int_of(d[p + 1]) is Some {
        match ids_at(d, p + 2) {
            Some((reps, q)) => match ids_at(d, q) {
                Some((isr, r)) => Some(
                    (
                        PartitionView {
                            id: small_int_of(d[p])->Some_0,
                            leader: small_int_of(d[p + 1])->Some_0,
                            replicas: reps,
                            isr,
                        },
                        r,
                    ),
                ),
                None => None,
            },
            None => None,
        }
    } else {
        None
    }
}

pub open spec fn partitions_at(d: Seq<CellView>, p: int, n: nat) -> Option<(Seq<PartitionView>, int)>
    decreases n,
{
    if n == 0 {
        Some((Seq::empty(), p))
    } else {
        match partitions_at(d, p, (n - 1) as nat) {
            Some((ps, q)) => match partition_at(d, q) {
                Some((pt, r)) => Some((ps.push(pt), r)),
                None => None,
            },
            None => None,
        }
    }
}

/// The topic that starts at `p`, and where it ends.
pub open spec fn topic_at(d: Seq<CellView>, p: int) -> Option<(TopicView, int)> {
    if 0 <= p && p + 2 <= d.len() && d[p] is Text && count_of(d[p + 1]) is Some {
        match partitions_at(d, p + 2, count_of(d[p + 1])->Some_0) {
            Some((ps, q)) => match text_list_at(d, q) {
                Some((gs, r)) => Some(
                    (TopicView { name: d[p]->Text_0, partitions: ps, consumer_groups: gs }, r),
                ),
                None => None,
            },
            None => None,
        }
    } else {
        None
    }
}

pub open spec fn topics_at(d: Seq<CellView>, p: int, n: nat) -> Option<(Seq<TopicView>, int)>
    decreases n,
{
    if n == 0 {
        Some((Seq::empty(), p))
    } else {
        match topics_at(d, p, (n - 1) as nat) {
            Some((ts, q)) => match topic_at(d, q) {
                Some((t, r)) => Some((ts.push(t), r)),
                None => None,
            },
            None => None,
        }
    }
}

/// The list of topics that a document holds, if it holds exactly one list.
pub open spec fn decode_topics(d: Seq<CellView>) -> Option<Seq<TopicView>> {
    if d.len() >= 1 && count_of(d[0]) is Some {
        match topics_at(d, 1, count_of(d[0])->Some_0) {
            Some((ts, q)) => if q == d.len() {
                Some(ts)
            } else {
                None
            },
            None => None,
        }
    } else {
        None
    }
}

proof fn lemma_schemas_at_stays_none(d: Seq<CellView>, p: int, k: nat, n: nat)
    requires
        schemas_at(d, p, k) is None,
        k <= n,
    ensures
        schemas_at(d, p, n) is None,
    decreases n - k,
{
    if k < n {
        lemma_schemas_at_stays_none(d, p, k, (n - 1) as nat);
    }
}

proof fn lemma_partitions_at_stays_none(d: Seq<CellView>, p: int, k: nat, n: nat)
    requires
        partitions_at(d, p, k) is None,
        k <= n,
    ensures
        partitions_at(d, p, n) is None,
    decreases n - k,
{
    if k < n {
        lemma_partitions_at_stays_none(d, p, k, (n - 1) as nat);
    }
}

proof fn lemma_topics_at_stays_none(d: Seq<CellView>, p: int, k: nat, n: nat)
    requires
        topics_at(d, p, k) is None,
        k <= n,
    ensures
        topics_at(d, p, n) is None,
    decreases n - k,
{
    if k < n {
        lemma_topics_at_stays_none(d, p, k, (n - 1) as nat);
    }
}

fn small_int_at(d: &Vec<Cell>, p: usize) -> (r: Option<i32>)
    requires
        p < d.len(),
    ensures
        small_int_of(d@[p as int]@) == r,
{
    match &d[p] {
        Cell::Int(n) => if i32::MIN as i64 <= *n && *n <= i32::MAX as i64 {
            Some(*n as i32)
        } else {
            None
        },
        _ => None,
    }
}

fn push_schema(d: &mut Vec<Cell>, s: &SchemaInfo)
    ensures
        cells_view(final(d)@) == cells_view(old(d)@) + encode_schema(s@),
{
    let ghost start = cells_view(d@);
    push_cell(d, Cell::Text(s.subject.clone()));
    push_cell(d, Cell::Int(s.version as i64));
    push_cell(d, Cell::Text(s.schema_type.clone()));
    push_cell(d, Cell::Text(s.schema.clone()));
    assert(cells_view(d@) =~= start + encode_schema(s@));
}

/// The document that holds the list `ss`; see `encode_schemas`.
pub fn schemas_to_document(ss: &Vec<SchemaInfo>) -> (r: Vec<Cell>)
    ensures
        cells_view(r@) == encode_schemas(schemas_view(ss@)),
{
    let mut d: Vec<Cell> = Vec::new();
    push_cell(&mut d, Cell::Int(ss.len() as i64));
    let ghost head = cells_view(d@);
    let ghost sv = schemas_view(ss@);
    let mut i: usize = 0;
    while i < ss.len()
        invariant
            i <= ss.len(),
            sv == schemas_view(ss@),
            cells_view(d@) == head + encode_schema_seq(sv.take(i as int)),
        decreases ss.len() - i,
    {
        push_schema(&mut d, &ss[i]);
        i = i + 1;
        assert(sv.take(i as int).drop_last() =~= sv.take(i - 1));
        assert(sv.take(i as int).last() == ss@[i - 1]@);
        assert(head + encode_schema_seq(sv.take(i as int)) =~= head + encode_schema_seq(
            sv.take(i - 1),
        ) + encode_schema(ss@[i - 1]@));
    }
    assert(sv.take(i as int) =~= sv);
    assert(cells_view(d@) =~= encode_schemas(sv));
    d
}

fn schema_from_cells(d: &Vec<Cell>, p: usize) -> (r: Option<(SchemaInfo, usize)>)
    ensures
        match r {
            Some((s, q)) => schema_at(cells_view(d@), p as int) == Some((s@, q as int)),
            None => schema_at(cells_view(d@), p as int) is None,
        },
{
    let ghost dv = cells_view(d@);
    assert(forall|i: int| 0 <= i < d.len() ==> dv[i] == (#[trigger] d@[i])@);
    if d.len() < 4 || p > d.len() - 4 {
        return None;
    }
    let subject = match text_at(d, p) {
        Some(s) => s,
        None => return None,
    };
    let version = match small_int_at(d, p + 1) {
        Some(v) => v,
        None => return None,
    };
    let schema_type = match text_at(d, p + 2) {
        Some(s) => s,
        None => return None,
    };
    let schema = match text_at(d, p + 3) {
        Some(s) => s,
        None => return None,
    };
    Some((SchemaInfo { subject, version, schema_type, schema }, p + 4))
}

/// The list of schemas that `d` holds, if it holds exactly one list; see
/// `decode_schemas`.
pub fn schemas_from_document(d: &Vec<Cell>) -> (r: Option<Vec<SchemaInfo>>)
    ensures
        match r {
            Some(ss) => decode_schemas(cells_view(d@)) == Some(schemas_view(ss@)),
            None => decode_schemas(cells_view(d@)) is None,
        },
{
    let ghost dv = cells_view(d@);
    if d.len() < 1 {
        return None;
    }
    assert(dv[0] == d@[0]@);
    let n = match count_at(d, 0) {
        Some(n) => n,
        None => return None,
    };
    let mut out: Vec<SchemaInfo> = Vec::new();
    let mut pos: usize = 1;
    let mut k: i64 = 0;
    while k < n
        invariant
            0 <= k <= n,
            dv == cells_view(d@),
            count_of(dv[0]) == Some(n as nat),
            schemas_at(dv, 1, k as nat) == Some((schemas_view(out@), pos as int)),
        decreases n - k,
    {
        match schema_from_cells(d, pos) {
            Some((s, q)) => {
                let ghost before = out@;
                out.push(s);
                assert(schemas_view(out@) =~= schemas_view(before).push(s@));
                pos = q;
            },
            None => {
                proof {
                    lemma_schemas_at_stays_none(dv, 1, (k + 1) as nat, n as nat);
                }
                return None;
            },
        }
        k = k + 1;
    }
    if pos == d.len() {
        Some(out)
    } else {
        None
    }
}

fn push_ids(d: &mut Vec<Cell>, v: &Vec<i32>)
    ensures
        cells_view(final(d)@) == cells_view(old(d)@) + encode_ids(v@),
{
    let ghost start = cells_view(d@);
    push_cell(d, Cell::Int(v.len() as i64));
    let ghost head = cells_view(d@);
    let mut i: usize = 0;
    while i < v.len()
        invariant
            i <= v.len(),
            cells_view(d@) == head + int_cells(v@.take(i as int)),
        decreases v.len() - i,
    {
        push_cell(d, Cell::Int(v[i] as i64));
        i = i + 1;
        assert(int_cells(v@.take(i as int)) =~= int_cells(v@.take(i - 1)).push(
            CellView::Int(v@[i - 1] as i64),
        ));
    }
    assert(v@.take(i as int) =~= v@);
    assert(cells_view(d@) =~= start + encode_ids(v@));
}

fn push_texts(d: &mut Vec<Cell>, v: &Vec<String>)
    ensures
        cells_view(final(d)@) == cells_view(old(d)@) + encode_texts(strs_view(v@)),
{
    let ghost start = cells_view(d@);
    push_cell(d, Cell::Int(v.len() as i64));
    let ghost head = cells_view(d@);
    let mut i: usize = 0;
    while i < v.len()
        invariant
            i <= v.len(),
            cells_view(d@) == head + text_cells(strs_view(v@).take(i as int)),
        decreases v.len() - i,
    {
        push_cell(d, Cell::Text(v[i].clone()));
        i = i + 1;
        assert(text_cells(strs_view(v@).take(i as int)) =~= text_cells(
            strs_view(v@).take(i - 1),
        ).push(CellView::Text(v@[i - 1]@)));
    }
    assert(strs_view(v@).take(i as int) =~= strs_view(v@));
    assert(cells_view(d@) =~= start + encode_texts(strs_view(v@)));
}

fn push_partition(d: &mut Vec<Cell>, pt: &PartitionInfo)
    ensures
        cells_view(final(d)@) == cells_view(old(d)@) + encode_partition(pt@),
{
    let ghost start = cells_view(d@);
    push_cell(d, Cell::Int(pt.id as i64));
    push_cell(d, Cell::Int(pt.leader as i64));
    push_ids(d, &pt.replicas);
    push_ids(d, &pt.isr);
    assert(cells_view(d@) =~= start + encode_partition(pt@));
}

fn push_topic(d: &mut Vec<Cell>, t: &KafkaTopicInfo)
    ensures
        cells_view(final(d)@) == cells_view(old(d)@) + encode_topic(t@),
{
    let ghost start = cells_view(d@);
    push_cell(d, Cell::Text(t.name.clone()));
    push_cell(d, Cell::Int(t.partitions.len() as i64));
    let ghost head = cells_view(d@);
    let ghost pv = partitions_view(t.partitions@);
    let mut i: usize = 0;
    while i < t.partitions.len()
        invariant
            i <= t.partitions.len(),
            pv == partitions_view(t.partitions@),
            cells_view(d@) == head + encode_partitions(pv.take(i as int)),
        decreases t.partitions.len() - i,
    {
        push_partition(d, &t.partitions[i]);
        i = i + 1;
        assert(pv.take(i as int).drop_last() =~= pv.take(i - 1));
        assert(pv.take(i as int).last() == t.partitions@[i - 1]@);
        assert(head + encode_partitions(pv.take(i as int)) =~= head + encode_partitions(
            pv.take(i - 1),
        ) + encode_partition(t.partitions@[i - 1]@));
    }
    assert(pv.take(i as int) =~= pv);
    push_texts(d, &t.consumer_groups);
    assert(cells_view(d@) =~= start + encode_topic(t@));
}

/// The document that holds the list `ts`; see `encode_topics`.
pub fn topics_to_document(ts: &Vec<KafkaTopicInfo>) -> (r: Vec<Cell>)
    ensures
        cells_view(r@) == encode_topics(topics_view(ts@)),
{
    let mut d: Vec<Cell> = Vec::new();
    push_cell(&mut d, Cell::Int(ts.len() as i64));
    let ghost head = cells_view(d@);
    let ghost tv = topics_view(ts@);
    let mut i: usize = 0;
    while i < ts.len()
        invariant
            i <= ts.len(),
            tv == topics_view(ts@),
            cells_view(d@) == head + encode_topic_seq(tv.take(i as int)),
        decreases ts.len() - i,
    {
        push_topic(&mut d, &ts[i]);
        i = i + 1;
        assert(tv.take(i as int).drop_last() =~= tv.take(i - 1));
        assert(tv.take(i as int).last() == ts@[i - 1]@);
        assert(head + encode_topic_seq(tv.take(i as int)) =~= head + encode_topic_seq(tv.take(i - 1))
            + encode_topic(ts@[i - 1]@));
    }
    assert(tv.take(i as int) =~= tv);
    assert(cells_view(d@) =~= encode_topics(tv));
    d
}

fn ids_from_cells(d: &Vec<Cell>, p: usize) -> (r: Option<(Vec<i32>, usize)>)
    ensures
        match r {
            Some((v, q)) => ids_at(cells_view(d@), p as int) == Some((v@, q as int)),
            None => ids_at(cells_view(d@), p as int) is None,
        },
{
    let ghost dv = cells_view(d@);
    assert(forall|i: int| 0 <= i < d.len() ==> dv[i] == (#[trigger] d@[i])@);
    if p >= d.len() {
        return None;
    }
    let n = match count_at(d, p) {
        Some(n) => n,
        None => return None,
    };
    let start = p + 1;
    let avail = d.len() - start;
    if n as u64 > avail as u64 {
        return None;
    }
    let m = n as usize;
    assert(count_of(dv[p as int]) == Some(m as nat));
    let mut v: Vec<i32> = Vec::new();
    let mut j: usize = 0;
    while j < m
        invariant
            j <= m,
            start + m <= d.len(),
            start == p + 1,
            dv == cells_view(d@),
            count_of(dv[p as int]) == Some(m as nat),
            v.len() == j,
            forall|i: int| 0 <= i < j ==> (#[trigger] small_int_of(dv[start + i])) is Some,
            forall|i: int| 0 <= i < j ==> #[trigger] v@[i] == small_int_of(dv[start + i])->Some_0,
        decreases m - j,
    {
        assert(dv[(start + j) as int] == d@[(start + j) as int]@);
        match small_int_at(d, start + j) {
            Some(x) => v.push(x),
            None => {
                assert(small_int_of(dv[start + j]) is None);
                return None;
            },
        }
        j = j + 1;
    }
    assert forall|i: int| start <= i < start + m implies #[trigger] small_int_of(dv[i]) is Some by {
        assert(small_int_of(dv[start + (i - start)]) is Some);
    }
    assert(v@ =~= Seq::new(m as nat, |i: int| small_int_of(dv[start + i])->Some_0));
    Some((v, start + m))
}

fn texts_from_cells(d: &Vec<Cell>, p: usize) -> (r: Option<(Vec<String>, usize)>)
    ensures
        match r {
            Some((v, q)) => text_list_at(cells_view(d@), p as int) == Some((strs_view(v@), q as int)),
            None => text_list_at(cells_view(d@), p as int) is None,
        },
{
    let ghost dv = cells_view(d@);
    assert(forall|i: int| 0 <= i < d.len() ==> dv[i] == (#[trigger] d@[i])@);
    if p >= d.len() {
        return None;
    }
    let n = match count_at(d, p) {
        Some(n) => n,
        None => return None,
    };
    let start = p + 1;
    let avail = d.len() - start;
    if n as u64 > avail as u64 {
        return None;
    }
    let m = n as usize;
    assert(count_of(dv[p as int]) == Some(m as nat));
    let mut v: Vec<String> = Vec::new();
    let mut j: usize = 0;
    while j < m
        invariant
            j <= m,
            start + m <= d.len(),
            start == p + 1,
            dv == cells_view(d@),
            count_of(dv[p as int]) == Some(m as nat),
            v.len() == j,
            forall|i: int| 0 <= i < j ==> (#[trigger] dv[start + i]) is Text,
            forall|i: int| 0 <= i < j ==> (#[trigger] v@[i])@ == dv[start + i]->Text_0,
        decreases m - j,
    {
        match text_at(d, start + j) {
            Some(s) => v.push(s),
            None => {
                assert(!(dv[start + j] is Text));
                return None;
            },
        }
        j = j + 1;
    }
    assert forall|i: int| start <= i < start + m implies #[trigger] dv[i] is Text by {
        assert(dv[start + (i - start)] is Text);
    }
    assert(strs_view(v@) =~= Seq::new(m as nat, |i: int| dv[start + i]->Text_0));
    Some((v, start + m))
}

fn partition_from_cells(d: &Vec<Cell>, p: usize) -> (r: Option<(PartitionInfo, usize)>)
    ensures
        match r {
            Some((pt, q)) => partition_at(cells_view(d@), p as int) == Some((pt@, q as int)),
            None => partition_at(cells_view(d@), p as int) is None,
        },
{
    if d.len() < 2 || p > d.len() - 2 {
        return None;
    }
    let id = match small_int_at(d, p) {
        Some(x) => x,
        None => return None,
    };
    let leader = match small_int_at(d, p + 1) {
        Some(x) => x,
        None => return None,
    };
    let (replicas, q) = match ids_from_cells(d, p + 2) {
        Some(x) => x,
        None => return None,
    };
    let (isr, r) = match ids_from_cells(d, q) {
        Some(x) => x,
        None => return None,
    };
    Some((PartitionInfo { id, leader, replicas, isr }, r))
}

fn topic_from_cells(d: &Vec<Cell>, p: usize) -> (r: Option<(KafkaTopicInfo, usize)>)
    ensures
        match r {
            Some((t, q)) => topic_at(cells_view(d@), p as int) == Some((t@, q as int)),
            None => topic_at(cells_view(d@), p as int) is None,
        },
{
    let ghost dv = cells_view(d@);
    if d.len() < 2 || p > d.len() - 2 {
        return None;
    }
    assert(dv[p as int] == d@[p as int]@);
    assert(dv[p + 1] == d@[p + 1]@);
    let name = match text_at(d, p) {
        Some(s) => s,
        None => return None,
    };
    let n = match count_at(d, p + 1) {
        Some(n) => n,
        None => return None,
    };
    let mut partitions: Vec<PartitionInfo> = Vec::new();
    let mut pos: usize = p + 2;
    let mut k: i64 = 0;
    while k < n
        invariant
            0 <= k <= n,
            dv == cells_view(d@),
            p + 2 <= d.len(),
            topic_at(dv, p as int) == match partitions_at(dv, p + 2, n as nat) {
                Some((ps, q)) => match text_list_at(dv, q) {
                    Some((gs, r)) => Some(
                        (TopicView { name: name@, partitions: ps, consumer_groups: gs }, r),
                    ),
                    None => None,
                },
                None => None,
            },
            partitions_at(dv, p + 2, k as nat) == Some((partitions_view(partitions@), pos as int)),
        decreases n - k,
    {
        match partition_from_cells(d, pos) {
            Some((pt, q)) => {
                let ghost before = partitions@;
                partitions.push(pt);
                assert(partitions_view(partitions@) =~= partitions_view(before).push(pt@));
                pos = q;
            },
            None => {
                proof {
                    lemma_partitions_at_stays_none(dv, p + 2, (k + 1) as nat, n as nat);
                }
                return None;
            },
        }
        k = k + 1;
    }
    let (consumer_groups, r) = match texts_from_cells(d, pos) {
        Some(x) => x,
        None => return None,
    };
    Some((KafkaTopicInfo { name, partitions, consumer_groups }, r))
}

/// The list of topics that `d` holds, if it holds exactly one list; see
/// `decode_topics`.
pub fn topics_from_document(d: &Vec<Cell>) -> (r: Option<Vec<KafkaTopicInfo>>)
    ensures
        match r {
            Some(ts) => decode_topics(cells_view(d@)) == Some(topics_view(ts@)),
            None => decode_topics(cells_view(d@)) is None,
        },
{
    let ghost dv = cells_view(d@);
    if d.len() < 1 {
        return None;
    }
    assert(dv[0] == d@[0]@);
    let n = match count_at(d, 0) {
        Some(n) => n,
        None => return None,
    };
    let mut out: Vec<KafkaTopicInfo> = Vec::new();
    let mut pos: usize = 1;
    let mut k: i64 = 0;
    while k < n
        invariant
            0 <= k <= n,
            dv == cells_view(d@),
            count_of(dv[0]) == Some(n as nat),
            topics_at(dv, 1, k as nat) == Some((topics_view(out@), pos as int)),
        decreases n - k,
    {
        match topic_from_cells(d, pos) {
            Some((t, q)) => {
                let ghost before = out@;
                out.push(t);
                assert(topics_view(out@) =~= topics_view(before).push(t@));
                pos = q;
            },
            None => {
                proof {
                    lemma_topics_at_stays_none(dv, 1, (k + 1) as nat, n as nat);
                }
                return None;
            },
        }
        k = k + 1;
    }
    if pos == d.len() {
        Some(out)
    } else {
        None
    }
}

proof fn lemma_schema_seq_round_trip(pre: Seq<CellView>, ss: Seq<SchemaView>, rest: Seq<CellView>)
    ensures
        schemas_at(pre + encode_schema_seq(ss) + rest, pre.len() as int, ss.len()) == Some(
            (ss, (pre.len() + encode_schema_seq(ss).len()) as int),
        ),
    decreases ss.len(),
{
    if ss.len() > 0 {
        let init = ss.drop_last();
        let last = ss.last();
        assert(ss[ss.len() - 1] == last);
        let d = pre + encode_schema_seq(ss) + rest;
        assert(d =~= pre + encode_schema_seq(init) + (encode_schema(last) + rest));
        lemma_schema_seq_round_trip(pre, init, encode_schema(last) + rest);
        let q = (pre.len() + encode_schema_seq(init).len()) as int;
        assert(d =~= (pre + encode_schema_seq(init)) + encode_schema(last) + rest);
        assert(d[q] == CellView::Text(last.subject));
        assert(d[q + 1] == CellView::Int(last.version as i64));
        assert(d[q + 2] == CellView::Text(last.schema_type));
        assert(d[q + 3] == CellView::Text(last.schema));
        assert(init.push(last) =~= ss);
    } else {
        assert(ss =~= Seq::<SchemaView>::empty());
    }
}

/// Decoding the encoding of a list of registry schemas gives the list back.
pub proof fn lemma_schemas_round_trip(ss: Seq<SchemaView>)
    requires
        ss.len() <= i64::MAX,
    ensures
        decode_schemas(encode_schemas(ss)) == Some(ss),
{
    let head = seq![CellView::Int(ss.len() as i64)];
    let e = encode_schemas(ss);
    assert(e[0] == CellView::Int(ss.len() as i64));
    lemma_schema_seq_round_trip(head, ss, Seq::empty());
    assert(head + encode_schema_seq(ss) + Seq::<CellView>::empty() =~= e);
}

/// Every count in the partition fits the document's integer cells.
pub open spec fn partition_encodable(pt: PartitionView) -> bool {
    pt.replicas.len() <= i64::MAX && pt.isr.len() <= i64::MAX
}

/// Every count in the topic fits the document's integer cells.
pub open spec fn topic_encodable(t: TopicView) -> bool {
    &&& t.partitions.len() <= i64::MAX
    &&& t.consumer_groups.len() <= i64::MAX
    &&& forall|i: int| 0 <= i < t.partitions.len() ==> partition_encodable(#[trigger] t.partitions[i])
}

proof fn lemma_ids_round_trip(pre: Seq<CellView>, v: Seq<i32>, rest: Seq<CellView>)
    requires
        v.len() <= i64::MAX,
    ensures
        ids_at(pre + encode_ids(v) + rest, pre.len() as int) == Some(
            (v, (pre.len() + encode_ids(v).len()) as int),
        ),
{
    let d = pre + encode_ids(v) + rest;
    let p = pre.len() as int;
    let m = v.len();
    assert(d[p] == CellView::Int(m as i64));
    assert forall|i: int| p + 1 <= i < p + 1 + m implies #[trigger] small_int_of(d[i]) == Some(
        v[i - p - 1],
    ) by {
        assert(d[i] == encode_ids(v)[i - p]);
    }
    assert(Seq::new(m, |i: int| small_int_of(d[p + 1 + i])->Some_0) =~= v);
}

proof fn lemma_texts_round_trip(pre: Seq<CellView>, v: Seq<Seq<char>>, rest: Seq<CellView>)
    requires
        v.len() <= i64::MAX,
    ensures
        text_list_at(pre + encode_texts(v) + rest, pre.len() as int) == Some(
            (v, (pre.len() + encode_texts(v).len()) as int),
        ),
{
    let d = pre + encode_texts(v) + rest;
    let p = pre.len() as int;
    let m = v.len();
    assert(d[p] == CellView::Int(m as i64));
    assert forall|i: int| p + 1 <= i < p + 1 + m implies #[trigger] d[i] == CellView::Text(
        v[i - p - 1],
    ) by {
        assert(d[i] == encode_texts(v)[i - p]);
    }
    assert(Seq::new(m, |i: int| d[p + 1 + i]->Text_0) =~= v);
}

proof fn lemma_partition_round_trip(pre: Seq<CellView>, pt: PartitionView, rest: Seq<CellView>)
    requires
        partition_encodable(pt),
    ensures
        partition_at(pre + encode_partition(pt) + rest, pre.len() as int) == Some(
            (pt, (pre.len() + encode_partition(pt).len()) as int),
        ),
{
    let d = pre + encode_partition(pt) + rest;
    let p = pre.len() as int;
    let head = seq![CellView::Int(pt.id as i64), CellView::Int(pt.leader as i64)];
    assert(d[p] == head[0]);
    assert(d[p + 1] == head[1]);
    assert(d =~= (pre + head) + encode_ids(pt.replicas) + (encode_ids(pt.isr) + rest));
    lemma_ids_round_trip(pre + head, pt.replicas, encode_ids(pt.isr) + rest);
    assert(d =~= (pre + head + encode_ids(pt.replicas)) + encode_ids(pt.isr) + rest);
    lemma_ids_round_trip(pre + head + encode_ids(pt.replicas), pt.isr, rest);
}

proof fn lemma_partition_seq_round_trip(pre: Seq<CellView>, ps: Seq<PartitionView>, rest: Seq<CellView>)
    requires
        forall|i: int| 0 <= i < ps.len() ==> partition_encodable(#[trigger] ps[i]),
    ensures
        partitions_at(pre + encode_partitions(ps) + rest, pre.len() as int, ps.len()) == Some(
            (ps, (pre.len() + encode_partitions(ps).len()) as int),
        ),
    decreases ps.len(),
{
    if ps.len() > 0 {
        let init = ps.drop_last();
        let last = ps.last();
        assert(ps[ps.len() - 1] == last);
        let d = pre + encode_partitions(ps) + rest;
        assert(d =~= pre + encode_partitions(init) + (encode_partition(last) + rest));
        lemma_partition_seq_round_trip(pre, init, encode_partition(last) + rest);
        assert(d =~= (pre + encode_partitions(init)) + encode_partition(last) + rest);
        lemma_partition_round_trip(pre + encode_partitions(init), last, rest);
        assert(init.push(last) =~= ps);
    } else {
        assert(ps =~= Seq::<PartitionView>::empty());
    }
}

proof fn lemma_topic_round_trip(pre: Seq<CellView>, t: TopicView, rest: Seq<CellView>)
    requires
        topic_encodable(t),
    ensures
        topic_at(pre + encode_topic(t) + rest, pre.len() as int) == Some(
            (t, (pre.len() + encode_topic(t).len()) as int),
        ),
{
    let d = pre + encode_topic(t) + rest;
    let p = pre.len() as int;
    let head = seq![CellView::Text(t.name), CellView::Int(t.partitions.len() as i64)];
    assert(d[p] == head[0]);
    assert(d[p + 1] == head[1]);
    assert(d =~= (pre + head) + encode_partitions(t.partitions) + (encode_texts(t.consumer_groups)
        + rest));
    lemma_partition_seq_round_trip(pre + head, t.partitions, encode_texts(t.consumer_groups) + rest);
    assert(d =~= (pre + head + encode_partitions(t.partitions)) + encode_texts(t.consumer_groups)
        + rest);
    lemma_texts_round_trip(pre + head + encode_partitions(t.partitions), t.consumer_groups, rest);
}

proof fn lemma_topic_seq_round_trip(pre: Seq<CellView>, ts: Seq<TopicView>, rest: Seq<CellView>)
    requires
        forall|i: int| 0 <= i < ts.len() ==> topic_encodable(#[trigger] ts[i]),
    ensures
        topics_at(pre + encode_topic_seq(ts) + rest, pre.len() as int, ts.len()) == Some(
            (ts, (pre.len() + encode_topic_seq(ts).len()) as int),
        ),
    decreases ts.len(),
{
    if ts.len() > 0 {
        let init = ts.drop_last();
        let last = ts.last();
        assert(ts[ts.len() - 1] == last);
        let d = pre + encode_topic_seq(ts) + rest;
        assert(d =~= pre + encode_topic_seq(init) + (encode_topic(last) + rest));
        lemma_topic_seq_round_trip(pre, init, encode_topic(last) + rest);
        assert(d =~= (pre + encode_topic_seq(init)) + encode_topic(last) + rest);
        lemma_topic_round_trip(pre + encode_topic_seq(init), last, rest);
        assert(init.push(last) =~= ts);
    } else {
        assert(ts =~= Seq::<TopicView>::empty());
    }
}

/// Decoding the encoding of a list of topics gives the list back.
pub proof fn lemma_topics_round_trip(ts: Seq<TopicView>)
    requires
        ts.len() <= i64::MAX,
        forall|i: int| 0 <= i < ts.len() ==> topic_encodable(#[trigger] ts[i]),
    ensures
        decode_topics(encode_topics(ts)) == Some(ts),
{
    let head = seq![CellView::Int(ts.len() as i64)];
    let e = encode_topics(ts);
    assert(e[0] == CellView::Int(ts.len() as i64));
    lemma_topic_seq_round_trip(head, ts, Seq::empty());
    assert(head + encode_topic_seq(ts) + Seq::<CellView>::empty() =~= e);
}

} // verus!
