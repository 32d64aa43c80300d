//! A table held in memory, answering the same requests with the same
//! responses as a remote one (queries paged, every bulk write applied in
//! full), and the staging and marker stores over it.

use crate::bulk::{
    chunk_count, chunk_end, deletes, execution_rows, puts, BatchCreate, RunDeletion, BATCH_LIMIT,
};
use crate::error::StoreError;
use crate::models::{ExecutionItem, RecordItem};
use crate::store::{
    decodes_execution_item, decodes_record_item, execution_attrs, finish_write,
    get_execution_item_request, get_record_item_request, put_execution_item_request,
    put_record_item_request, read_execution_item, read_exists, read_record_item, record_attrs,
    record_key_view, set_summary_request, AttrView, KeyView, ATTR_SUMMARY, RECORD_PREFIX,
};
use crate::table::{
    attrs_view, keys_view, ops_view, rows_view, Attr, AttrValueView, Row, RowKey, TableRequest, TableResponse,
    WriteOp, WriteOpView,
};
use vstd::prelude::*;

verus! {

/// View of a row: its key and attributes.
pub type RowView = (KeyView, Seq<AttrView>);

/// Whether some row has key `k`.
pub open spec fn has_key(rows: Seq<RowView>, k: KeyView) -> bool {
    exists|i: int| 0 <= i < rows.len() && (#[trigger] rows[i]).0 == k
}

/// No two rows share a key.
pub open spec fn unique_keys(rows: Seq<RowView>) -> bool {
    forall|i: int, j: int|
        0 <= i < rows.len() && 0 <= j < rows.len() && i != j ==> (#[trigger] rows[i]).0 != (
        #[trigger] rows[j]).0
}

/// What a list of rows holds, by key.
pub open spec fn contents_of(rows: Seq<RowView>) -> Map<KeyView, Seq<AttrView>> {
    Map::new(
        |k: KeyView| has_key(rows, k),
        |k: KeyView| rows[choose|i: int| 0 <= i < rows.len() && (#[trigger] rows[i]).0 == k].1,
    )
}

/// The keys of the rows under partition key `pk`, one per row, in row order.
pub open spec fn keys_under(rows: Seq<RowView>, pk: Seq<char>) -> Seq<KeyView>
    decreases rows.len(),
{
    if rows.len() == 0 {
        Seq::empty()
    } else if rows.last().0.0 == pk {
        keys_under(rows.drop_last(), pk).push(rows.last().0)
    } else {
        keys_under(rows.drop_last(), pk)
    }
}

/// Position from which a query resumes: the start, or just after the row of
/// the continuation key (the end when no row has that key).
pub open spec fn resume_at(rows: Seq<RowView>, start: Option<KeyView>) -> int {
    match start {
        None => 0,
        Some(k) => if has_key(rows, k) {
            (choose|i: int| 0 <= i < rows.len() && (#[trigger] rows[i]).0 == k) + 1
        } else {
            rows.len() as int
        },
    }
}

/// End of a page read from position `p`: just after its `n`-th row under
/// `pk`, or the end of the rows when there are fewer.
pub open spec fn page_end(rows: Seq<RowView>, pk: Seq<char>, p: int, n: nat) -> int
    decreases rows.len() - p,
{
    if p >= rows.len() || p < 0 {
        rows.len() as int
    } else if rows[p].0.0 == pk {
        if n <= 1 {
            p + 1
        } else {
            page_end(rows, pk, p + 1, (n - 1) as nat)
        }
    } else {
        page_end(rows, pk, p + 1, n)
    }
}

/// `attrs` without the attributes named `name`.
pub open spec fn without_attr(attrs: Seq<AttrView>, name: Seq<char>) -> Seq<AttrView>
    decreases attrs.len(),
{
    if attrs.len() == 0 {
        Seq::empty()
    } else if attrs.last().0 == name {
        without_attr(attrs.drop_last(), name)
    } else {
        without_attr(attrs.drop_last(), name).push(attrs.last())
    }
}

/// `attrs` with attribute `a` set: other attributes of that name dropped, `a` added.
pub open spec fn with_attr(attrs: Seq<AttrView>, a: AttrView) -> Seq<AttrView> {
    without_attr(attrs, a.0).push(a)
}

/// Effect of one bulk-write item.
pub open spec fn apply_op(m: Map<KeyView, Seq<AttrView>>, op: WriteOpView) -> Map<
    KeyView,
    Seq<AttrView>,
> {
    match op {
        WriteOpView::Put(r) => m.insert(r.0, r.1),
        WriteOpView::Delete(k) => m.remove(k),
    }
}

/// Effect of bulk-write items applied in order.
pub open spec fn apply_ops(m: Map<KeyView, Seq<AttrView>>, ops: Seq<WriteOpView>) -> Map<
    KeyView,
    Seq<AttrView>,
>
    decreases ops.len(),
{
    if ops.len() == 0 {
        m
    } else {
        apply_op(apply_ops(m, ops.drop_last()), ops.last())
    }
}

proof fn lemma_contents_at(rows: Seq<RowView>, i: int)
    requires
        unique_keys(rows),
        0 <= i < rows.len(),
    ensures
        contents_of(rows).contains_key(rows[i].0),
        contents_of(rows)[rows[i].0] == rows[i].1,
{
    let k = rows[i].0;
    assert(has_key(rows, k));
    let j = choose|j: int| 0 <= j < rows.len() && (#[trigger] rows[j]).0 == k;
    assert(j == i);
}

proof fn lemma_contents_update(rows: Seq<RowView>, i: int, r: RowView)
    requires
        unique_keys(rows),
        0 <= i < rows.len(),
        rows[i].0 == r.0,
    ensures
        unique_keys(rows.update(i, r)),
        contents_of(rows.update(i, r)) == contents_of(rows).insert(r.0, r.1),
{
    let rs = rows.update(i, r);
    assert(unique_keys(rs)) by {
        assert forall|a: int, b: int|
            0 <= a < rs.len() && 0 <= b < rs.len() && a != b implies (#[trigger] rs[a]).0 != (
            #[trigger] rs[b]).0 by {
            assert(rows[a].0 != rows[b].0);
        }
    }
    assert forall|k: KeyView| #[trigger] has_key(rs, k) == (has_key(rows, k) || k == r.0) by {
        if has_key(rows, k) {
            let j = choose|j: int| 0 <= j < rows.len() && (#[trigger] rows[j]).0 == k;
            assert(rs[j].0 == k);
        }
        if has_key(rs, k) {
            let j = choose|j: int| 0 <= j < rs.len() && (#[trigger] rs[j]).0 == k;
            assert(rows[j].0 == k);
        }
        if k == r.0 {
            assert(rs[i].0 == k);
        }
    }
    assert forall|k: KeyView| #[trigger] has_key(rs, k) implies contents_of(rs)[k] == contents_of(
        rows,
    ).insert(r.0, r.1)[k] by {
        let j = choose|j: int| 0 <= j < rs.len() && (#[trigger] rs[j]).0 == k;
        lemma_contents_at(rs, j);
        if j != i {
            lemma_contents_at(rows, j);
        }
    }
    assert(contents_of(rs) =~= contents_of(rows).insert(r.0, r.1));
}

proof fn lemma_contents_push(rows: Seq<RowView>, r: RowView)
    requires
        unique_keys(rows),
        !has_key(rows, r.0),
    ensures
        unique_keys(rows.push(r)),
        contents_of(rows.push(r)) == contents_of(rows).insert(r.0, r.1),
{
    let rs = rows.push(r);
    assert(unique_keys(rs)) by {
        assert forall|a: int, b: int|
            0 <= a < rs.len() && 0 <= b < rs.len() && a != b implies (#[trigger] rs[a]).0 != (
            #[trigger] rs[b]).0 by {
            if a < rows.len() && b < rows.len() {
                assert(rows[a].0 != rows[b].0);
            } else if a < rows.len() {
                assert(rows[a].0 != r.0);
            } else {
                assert(rows[b].0 != r.0);
            }
        }
    }
    assert forall|k: KeyView| #[trigger] has_key(rs, k) == (has_key(rows, k) || k == r.0) by {
        if has_key(rows, k) {
            let j = choose|j: int| 0 <= j < rows.len() && (#[trigger] rows[j]).0 == k;
            assert(rs[j].0 == k);
        }
        if has_key(rs, k) {
            let j = choose|j: int| 0 <= j < rs.len() && (#[trigger] rs[j]).0 == k;
            if j < rows.len() {
                assert(rows[j].0 == k);
            }
        }
        if k == r.0 {
            assert(rs[rows.len() as int].0 == k);
        }
    }
    assert forall|k: KeyView| #[trigger] has_key(rs, k) implies contents_of(rs)[k] == contents_of(
        rows,
    ).insert(r.0, r.1)[k] by {
        let j = choose|j: int| 0 <= j < rs.len() && (#[trigger] rs[j]).0 == k;
        lemma_contents_at(rs, j);
        if j < rows.len() {
            lemma_contents_at(rows, j);
        }
    }
    assert(contents_of(rs) =~= contents_of(rows).insert(r.0, r.1));
}

proof fn lemma_contents_remove(rows: Seq<RowView>, i: int)
    requires
        unique_keys(rows),
        0 <= i < rows.len(),
    ensures
        unique_keys(rows.remove(i)),
        contents_of(rows.remove(i)) == contents_of(rows).remove(rows[i].0),
{
    let rs = rows.remove(i);
    let gone = rows[i].0;
    assert(forall|a: int| 0 <= a < rs.len() ==> #[trigger] rs[a] == rows[if a < i { a } else { a + 1 }]);
    assert(unique_keys(rs)) by {
        assert forall|a: int, b: int|
            0 <= a < rs.len() && 0 <= b < rs.len() && a != b implies (#[trigger] rs[a]).0 != (
            #[trigger] rs[b]).0 by {
            let a2 = if a < i { a } else { a + 1 };
            let b2 = if b < i { b } else { b + 1 };
            assert(rows[a2].0 != rows[b2].0);
        }
    }
    assert forall|k: KeyView| #[trigger] has_key(rs, k) == (has_key(rows, k) && k != gone) by {
        if has_key(rows, k) && k != gone {
            let j = choose|j: int| 0 <= j < rows.len() && (#[trigger] rows[j]).0 == k;
            assert(j != i);
            let j2 = if j < i { j } else { j - 1 };
            assert(rs[j2].0 == k);
        }
        if has_key(rs, k) {
            let j = choose|j: int| 0 <= j < rs.len() && (#[trigger] rs[j]).0 == k;
            let j2 = if j < i { j } else { j + 1 };
            assert(rows[j2].0 == k);
            assert(j2 != i);
        }
    }
    assert forall|k: KeyView| #[trigger] has_key(rs, k) implies contents_of(rs)[k] == contents_of(
        rows,
    )[k] by {
        let j = choose|j: int| 0 <= j < rs.len() && (#[trigger] rs[j]).0 == k;
        lemma_contents_at(rs, j);
        lemma_contents_at(rows, if j < i { j } else { j + 1 });
    }
    assert(contents_of(rs) =~= contents_of(rows).remove(gone));
}

proof fn lemma_apply_ops_concat(
    m: Map<KeyView, Seq<AttrView>>,
    a: Seq<WriteOpView>,
    b: Seq<WriteOpView>,
)
    ensures
        apply_ops(m, a + b) == apply_ops(apply_ops(m, a), b),
    decreases b.len(),
{
    if b.len() == 0 {
        assert(a + b =~= a);
    } else {
        assert((a + b).drop_last() =~= a + b.drop_last());
        lemma_apply_ops_concat(m, a, b.drop_last());
    }
}

proof fn lemma_apply_deletes(m: Map<KeyView, Seq<AttrView>>, keys: Seq<KeyView>)
    ensures
        forall|k: KeyView| #[trigger]
            apply_ops(m, deletes(keys)).contains_key(k) <==> (m.contains_key(k) && !keys.contains(
                k,
            )),
        forall|k: KeyView| #[trigger]
            apply_ops(m, deletes(keys)).contains_key(k) ==> apply_ops(m, deletes(keys))[k] == m[k],
    decreases keys.len(),
{
    if keys.len() == 0 {
        assert(deletes(keys) =~= Seq::<WriteOpView>::empty());
        assert forall|k: KeyView| !keys.contains(k) by {}
    } else {
        let rest = keys.drop_last();
        assert(deletes(keys).drop_last() =~= deletes(rest));
        assert(deletes(keys).last() == WriteOpView::Delete(keys.last()));
        assert(apply_ops(m, deletes(keys)) == apply_ops(m, deletes(rest)).remove(keys.last()));
        lemma_apply_deletes(m, rest);
        assert forall|k: KeyView| keys.contains(k) <==> (rest.contains(k) || k == keys.last()) by {
            if keys.contains(k) {
                let i = choose|i: int| 0 <= i < keys.len() && keys[i] == k;
                if i < rest.len() {
                    assert(rest[i] == k);
                }
            }
            if rest.contains(k) {
                let i = choose|i: int| 0 <= i < rest.len() && rest[i] == k;
                assert(keys[i] == k);
            }
            if k == keys.last() {
                assert(keys[keys.len() - 1] == k);
            }
        }
    }
}

proof fn lemma_keys_under(rows: Seq<RowView>, pk: Seq<char>)
    ensures
        forall|k: KeyView| #[trigger]
            keys_under(rows, pk).contains(k) <==> (has_key(rows, k) && k.0 == pk),
    decreases rows.len(),
{
    if rows.len() == 0 {
        assert forall|k: KeyView| !keys_under(rows, pk).contains(k) && !has_key(rows, k) by {}
    } else {
        let rest = rows.drop_last();
        lemma_keys_under(rest, pk);
        assert forall|k: KeyView| has_key(rows, k) <==> (has_key(rest, k) || k == rows.last().0) by {
            if has_key(rows, k) {
                let i = choose|i: int| 0 <= i < rows.len() && (#[trigger] rows[i]).0 == k;
                if i < rest.len() {
                    assert(rest[i].0 == k);
                }
            }
            if has_key(rest, k) {
                let i = choose|i: int| 0 <= i < rest.len() && (#[trigger] rest[i]).0 == k;
                assert(rows[i].0 == k);
            }
            if k == rows.last().0 {
                assert(rows[rows.len() - 1].0 == k);
            }
        }
        let sub = keys_under(rest, pk);
        if rows.last().0.0 == pk {
            assert forall|k: KeyView| sub.push(rows.last().0).contains(k) <==> (sub.contains(k)
                || k == rows.last().0) by {
                let full = sub.push(rows.last().0);
                if full.contains(k) {
                    let i = choose|i: int| 0 <= i < full.len() && full[i] == k;
                    if i < sub.len() {
                        assert(sub[i] == k);
                    }
                }
                if sub.contains(k) {
                    let i = choose|i: int| 0 <= i < sub.len() && sub[i] == k;
                    assert(full[i] == k);
                }
                if k == rows.last().0 {
                    assert(full[sub.len() as int] == k);
                }
            }
        }
        assert forall|k: KeyView| #[trigger]
            keys_under(rows, pk).contains(k) <==> (has_key(rows, k) && k.0 == pk) by {
            assert(has_key(rows, k) <==> (has_key(rest, k) || k == rows.last().0));
            assert(sub.contains(k) <==> (has_key(rest, k) && k.0 == pk));
        }
    }
}

proof fn lemma_page_end(rows: Seq<RowView>, pk: Seq<char>, p: int, n: nat)
    requires
        0 <= p <= rows.len(),
        n > 0,
    ensures
        p <= page_end(rows, pk, p, n) <= rows.len(),
        page_end(rows, pk, p, n) < rows.len() ==> page_end(rows, pk, p, n) > p && rows[page_end(
            rows,
            pk,
            p,
            n,
        ) - 1].0.0 == pk,
    decreases rows.len() - p,
{
    if p < rows.len() {
        if rows[p].0.0 == pk {
            if n > 1 {
                lemma_page_end(rows, pk, p + 1, (n - 1) as nat);
            }
        } else {
            lemma_page_end(rows, pk, p + 1, n);
        }
    }
}

proof fn lemma_keys_under_split(rows: Seq<RowView>, pk: Seq<char>, p: int, q: int)
    requires
        0 <= p <= q <= rows.len(),
    ensures
        keys_under(rows.take(p), pk) + keys_under(rows.subrange(p, q), pk) == keys_under(
            rows.take(q),
            pk,
        ),
    decreases q - p,
{
    if q == p {
        assert(rows.subrange(p, q) =~= Seq::<RowView>::empty());
        assert(rows.take(p) =~= rows.take(q));
        assert(keys_under(rows.take(p), pk) + Seq::<KeyView>::empty() =~= keys_under(rows.take(p), pk));
    } else {
        lemma_keys_under_split(rows, pk, p, q - 1);
        assert(rows.take(q).drop_last() =~= rows.take(q - 1));
        assert(rows.subrange(p, q).drop_last() =~= rows.subrange(p, q - 1));
        let a = keys_under(rows.take(p), pk);
        let b = keys_under(rows.subrange(p, q - 1), pk);
        if rows[q - 1].0.0 == pk {
            assert(a + b.push(rows[q - 1].0) =~= (a + b).push(rows[q - 1].0));
        }
    }
}

proof fn lemma_resume_after(rows: Seq<RowView>, i: int)
    requires
        unique_keys(rows),
        0 <= i < rows.len(),
    ensures
        resume_at(rows, Some(rows[i].0)) == i + 1,
{
    let k = rows[i].0;
    assert(has_key(rows, k));
    let j = choose|j: int| 0 <= j < rows.len() && (#[trigger] rows[j]).0 == k;
    assert(j == i);
}

proof fn lemma_chunk_count_step(next: nat, len: nat)
    requires
        next < len,
        next % BATCH_LIMIT as nat == 0,
    ensures
        chunk_end(next as int, len as int) % BATCH_LIMIT as int == 0 || chunk_end(next as int, len as int) == len,
        chunk_count(chunk_end(next as int, len as int) as nat) == chunk_count(next) + 1,
{
}

/// Dedup through markers: an empty table holds no marker; once `guid` is
/// marked its marker is there; marking another guid leaves the presence of
/// the marker of `guid` as it was.
pub proof fn lemma_marker_presence(m: Map<KeyView, Seq<AttrView>>, guid: Seq<char>, other: Seq<char>)
    ensures
        !Map::<KeyView, Seq<AttrView>>::empty().contains_key(record_key_view(guid)),
        m.insert(record_key_view(guid), record_attrs()).contains_key(record_key_view(guid)),
        other != guid ==> (m.insert(record_key_view(other), record_attrs()).contains_key(
            record_key_view(guid),
        ) == m.contains_key(record_key_view(guid))),
{
    let p = RECORD_PREFIX@;
    if other != guid {
        assert((p + other).skip(p.len() as int) =~= other);
        assert((p + guid).skip(p.len() as int) =~= guid);
    }
}

/// A table held in memory. Its rows have distinct keys; a query page holds at
/// most `page_size` keys; it also counts the bulk requests it has served.
pub struct MemoryTable {
    pub rows: Vec<Row>,
    pub page_size: usize,
    pub bulk_requests: u64,
}

impl View for MemoryTable {
    type V = Map<KeyView, Seq<AttrView>>;

    open spec fn view(&self) -> Map<KeyView, Seq<AttrView>> {
        contents_of(rows_view(self.rows@))
    }
}

/// Effect of a request on a table's contents.
pub open spec fn request_effect(m: Map<KeyView, Seq<AttrView>>, req: TableRequest) -> Map<
    KeyView,
    Seq<AttrView>,
> {
    match req {
        TableRequest::Put(row) => m.insert(row@.0, row@.1),
        TableRequest::SetAttr { key, attr } => if m.contains_key(key@) {
            m.insert(key@, with_attr(m[key@], attr@))
        } else {
            m
        },
        TableRequest::BatchWrite(ops) => apply_ops(m, ops_view(ops@)),
        _ => m,
    }
}

impl MemoryTable {
    /// Keys are distinct and pages hold at least one key.
    pub open spec fn wf(&self) -> bool {
        unique_keys(rows_view(self.rows@)) && self.page_size > 0
    }

    /// An empty table whose query pages hold at most `page_size` keys.
    pub fn new(page_size: usize) -> (r: MemoryTable)
        requires
            page_size > 0,
        ensures
            r.wf(),
            r@ == Map::<KeyView, Seq<AttrView>>::empty(),
            r.page_size == page_size,
            r.bulk_requests == 0,
    {
        let r = MemoryTable { rows: Vec::new(), page_size, bulk_requests: 0 };
        assert(r@ =~= Map::<KeyView, Seq<AttrView>>::empty());
        r
    }

    fn find(&self, key: &RowKey) -> (r: Option<usize>)
        ensures
            match r {
                Some(i) => i < self.rows@.len() && rows_view(self.rows@)[i as int].0 == key@,
                None => !has_key(rows_view(self.rows@), key@),
            },
    {
        let mut i: usize = 0;
        while i < self.rows.len()
            invariant
                i <= self.rows@.len(),
                forall|j: int| 0 <= j < i ==> (#[trigger] rows_view(self.rows@)[j]).0 != key@,
            decreases self.rows@.len() - i,
        {
            assert(rows_view(self.rows@)[i as int] == self.rows@[i as int]@);
            if self.rows[i].key.same(key) {
                return Some(i);
            }
            i = i + 1;
        }
        None
    }

    fn put(&mut self, row: Row)
        requires
            old(self).wf(),
        ensures
            final(self).wf(),
            final(self)@ == old(self)@.insert(row@.0, row@.1),
            final(self).bulk_requests == old(self).bulk_requests,
            final(self).page_size == old(self).page_size,
    {
        let ghost rv = row@;
        let ghost before = rows_view(self.rows@);
        match self.find(&row.key) {
            Some(i) => {
                self.rows.set(i, row);
                proof {
                    assert(rows_view(self.rows@) =~= before.update(i as int, rv));
                    lemma_contents_update(before, i as int, rv);
                }
            },
            None => {
                self.rows.push(row);
                proof {
                    assert(rows_view(self.rows@) =~= before.push(rv));
                    lemma_contents_push(before, rv);
                }
            },
        }
    }

    fn remove_key(&mut self, key: &RowKey)
        requires
            old(self).wf(),
        ensures
            final(self).wf(),
            final(self)@ == old(self)@.remove(key@),
            final(self).bulk_requests == old(self).bulk_requests,
            final(self).page_size == old(self).page_size,
    {
        let ghost before = rows_view(self.rows@);
        match self.find(key) {
            Some(i) => {
                self.rows.remove(i);
                proof {
                    assert(rows_view(self.rows@) =~= before.remove(i as int));
                    lemma_contents_remove(before, i as int);
                }
            },
            None => {
                assert(self@ =~= self@.remove(key@));
            },
        }
    }

    /// The row under `key`, if any.
    pub fn get(&self, key: &RowKey) -> (r: Option<Row>)
        requires
            self.wf(),
        ensures
            match r {
                Some(row) => self@.contains_key(key@) && row@ == (key@, self@[key@]),
                None => !self@.contains_key(key@),
            },
    {
        match self.find(key) {
            Some(i) => {
                proof {
                    lemma_contents_at(rows_view(self.rows@), i as int);
                }
                Some(self.rows[i].copy())
            },
            None => None,
        }
    }

    fn set_attr(&mut self, key: &RowKey, attr: Attr) -> (found: bool)
        requires
            old(self).wf(),
        ensures
            final(self).wf(),
            found == old(self)@.contains_key(key@),
            final(self)@ == (if found {
                old(self)@.insert(key@, with_attr(old(self)@[key@], attr@))
            } else {
                old(self)@
            }),
            final(self).bulk_requests == old(self).bulk_requests,
            final(self).page_size == old(self).page_size,
    {
        match self.get(key) {
            None => false,
            Some(row) => {
                let ghost av = attr@;
                let mut attrs: Vec<Attr> = Vec::new();
                let mut i: usize = 0;
                while i < row.attrs.len()
                    invariant
                        i <= row.attrs@.len(),
                        av == attr@,
                        attrs_view(attrs@) == without_attr(attrs_view(row.attrs@).take(i as int), av.0),
                    decreases row.attrs@.len() - i,
                {
                    let ghost before = attrs@;
                    proof {
                        assert(attrs_view(row.attrs@).take(i + 1).drop_last() =~= attrs_view(
                            row.attrs@,
                        ).take(i as int));
                        assert(attrs_view(row.attrs@)[i as int] == row.attrs@[i as int]@);
                    }
                    if !(row.attrs[i].name == attr.name) {
                        attrs.push(row.attrs[i].copy());
                        assert(attrs_view(attrs@) =~= attrs_view(before).push(row.attrs@[i as int]@));
                    }
                    i = i + 1;
                }
                assert(attrs_view(row.attrs@).take(i as int) =~= attrs_view(row.attrs@));
                let ghost kept = attrs@;
                attrs.push(attr);
                assert(attrs_view(attrs@) =~= attrs_view(kept).push(av));
                self.put(Row { key: row.key, attrs });
                true
            },
        }
    }

    fn query_page(&self, pk: &String, start: &Option<RowKey>) -> (r: (Vec<RowKey>, Option<RowKey>))
        requires
            self.wf(),
        ensures
            ({
                let rows = rows_view(self.rows@);
                let p = resume_at(
                    rows,
                    match start {
                        Some(k) => Some(k@),
                        None => None,
                    },
                );
                let q = page_end(rows, pk@, p, self.page_size as nat);
                &&& keys_view(r.0@) == keys_under(rows.subrange(p, q), pk@)
                &&& if q < rows.len() {
                    r.1 matches Some(l) && l@ == rows[q - 1].0
                } else {
                    r.1 is None
                }
            }),
    {
        let ghost rows = rows_view(self.rows@);
        let ghost sv = match start {
            Some(k) => Some(k@),
            None => None,
        };
        let len = self.rows.len();
        let p: usize = match start {
            None => 0,
            Some(k) => match self.find(k) {
                Some(i) => {
                    proof {
                        lemma_resume_after(rows, i as int);
                    }
                    assert(i < len);
                    i + 1
                },
                None => len,
            },
        };
        assert(p as int == resume_at(rows, sv));
        let mut keys: Vec<RowKey> = Vec::new();
        let mut i: usize = p;
        let mut remaining: usize = self.page_size;
        assert(rows.subrange(p as int, p as int) =~= Seq::<RowView>::empty());
        while i < self.rows.len() && remaining > 0
            invariant
                p <= i <= self.rows@.len(),
                rows == rows_view(self.rows@),
                remaining <= self.page_size,
                self.page_size > 0,
                page_end(rows, pk@, p as int, self.page_size as nat) == (if remaining == 0 {
                    i as int
                } else {
                    page_end(rows, pk@, i as int, remaining as nat)
                }),
                keys_view(keys@) == keys_under(rows.subrange(p as int, i as int), pk@),
            decreases self.rows@.len() - i,
        {
            let ghost before = keys@;
            proof {
                assert(rows.subrange(p as int, i + 1).drop_last() =~= rows.subrange(p as int, i as int));
                assert(rows[i as int] == self.rows@[i as int]@);
            }
            if self.rows[i].key.pk == *pk {
                keys.push(self.rows[i].key.copy());
                assert(keys_view(keys@) =~= keys_view(before).push(self.rows@[i as int].key@));
                remaining = remaining - 1;
            }
            i = i + 1;
        }
        proof {
            lemma_page_end(rows, pk@, p as int, self.page_size as nat);
        }
        let last = if i < self.rows.len() {
            Some(self.rows[i - 1].key.copy())
        } else {
            None
        };
        proof {
            if i < self.rows.len() {
                assert(rows[i - 1] == self.rows@[i - 1]@);
            }
        }
        (keys, last)
    }

    fn apply_write(&mut self, op: WriteOp)
        requires
            old(self).wf(),
        ensures
            final(self).wf(),
            final(self)@ == apply_op(old(self)@, op@),
            final(self).bulk_requests == old(self).bulk_requests,
            final(self).page_size == old(self).page_size,
    {
        match op {
            WriteOp::Put(row) => self.put(row),
            WriteOp::Delete(key) => self.remove_key(&key),
        }
    }

    /// Serves one request. Puts replace whole rows; setting an attribute needs
    /// the row to exist; a query gives every key under the partition key in
    /// one page (and nothing after a continuation key); a bulk write is applied
    /// in full, in order, and counted.
    pub fn execute(&mut self, req: TableRequest) -> (resp: TableResponse)
        requires
            old(self).wf(),
        ensures
            final(self).wf(),
            final(self).page_size == old(self).page_size,
            final(self)@ == request_effect(old(self)@, req),
            (req is Get || req is Query) ==> final(self).rows == old(self).rows,
            match req {
                TableRequest::Put(_) => resp is Written,
                TableRequest::Get { key, key_only } => match resp {
                    TableResponse::Item(Some(row)) => old(self)@.contains_key(key@) && row@.0 == key@
                        && (!key_only ==> row@.1 == old(self)@[key@]),
                    TableResponse::Item(None) => !old(self)@.contains_key(key@),
                    _ => false,
                },
                TableRequest::SetAttr { key, attr } => if old(self)@.contains_key(key@) {
                    resp is Written
                } else {
                    resp is Failed
                },
                TableRequest::Query { pk, start } => {
                    let rows = rows_view(old(self).rows@);
                    let p = resume_at(
                        rows,
                        match start {
                            Some(k) => Some(k@),
                            None => None,
                        },
                    );
                    let q = page_end(rows, pk@, p, old(self).page_size as nat);
                    &&& resp matches TableResponse::Page { keys, last }
                    &&& keys_view(keys@) == keys_under(rows.subrange(p, q), pk@)
                    &&& if q < rows.len() {
                        last matches Some(l) && l@ == rows[q - 1].0
                    } else {
                        last is None
                    }
                },
                TableRequest::BatchWrite(_) => resp matches TableResponse::BatchDone { unprocessed }
                    && unprocessed@.len() == 0,
            },
            req is BatchWrite && old(self).bulk_requests < u64::MAX ==> final(self).bulk_requests
                == old(self).bulk_requests + 1,
            !(req is BatchWrite && old(self).bulk_requests < u64::MAX) ==> final(self).bulk_requests
                == old(self).bulk_requests,
    {
        match req {
            TableRequest::Put(row) => {
                self.put(row);
                TableResponse::Written
            },
            TableRequest::Get { key, key_only } => {
                match self.get(&key) {
                    Some(row) => {
                        if key_only {
                            TableResponse::Item(Some(Row { key: row.key, attrs: Vec::new() }))
                        } else {
                            TableResponse::Item(Some(row))
                        }
                    },
                    None => TableResponse::Item(None),
                }
            },
            TableRequest::SetAttr { key, attr } => {
                if self.set_attr(&key, attr) {
                    TableResponse::Written
                } else {
                    TableResponse::Failed { message: String::from_str("the row does not exist") }
                }
            },
            TableRequest::Query { pk, start } => {
                let (keys, last) = self.query_page(&pk, &start);
                TableResponse::Page { keys, last }
            },
            TableRequest::BatchWrite(ops) => {
                let ghost start = self@;
                let ghost all = ops_view(ops@);
                let mut i: usize = 0;
                while i < ops.len()
                    invariant
                        self.wf(),
                        i <= ops@.len(),
                        all == ops_view(ops@),
                        self@ == apply_ops(start, all.take(i as int)),
                        self.bulk_requests == old(self).bulk_requests,
                        self.page_size == old(self).page_size,
                    decreases ops@.len() - i,
                {
                    proof {
                        assert(all.take(i + 1).drop_last() =~= all.take(i as int));
                        assert(all[i as int] == ops@[i as int]@);
                    }
                    self.apply_write(ops[i].copy());
                    i = i + 1;
                }
                assert(all.take(i as int) =~= all);
                if self.bulk_requests < u64::MAX {
                    self.bulk_requests = self.bulk_requests + 1;
                }
                TableResponse::BatchDone { unprocessed: Vec::new() }
            },
        }
    }
}

/// The staging and marker stores over a table held in memory.
pub struct MemoryRepository {
    pub table: MemoryTable,
}

impl View for MemoryRepository {
    type V = Map<KeyView, Seq<AttrView>>;

    open spec fn view(&self) -> Map<KeyView, Seq<AttrView>> {
        self.table@
    }
}

impl MemoryRepository {
    /// The table is well formed.
    pub open spec fn wf(&self) -> bool {
        self.table.wf()
    }

    /// A repository over an empty table whose query pages hold at most
    /// `page_size` keys.
    pub fn new(page_size: usize) -> (r: MemoryRepository)
        requires
            page_size > 0,
        ensures
            r.wf(),
            r@ == Map::<KeyView, Seq<AttrView>>::empty(),
            r.table.bulk_requests == 0,
    {
        MemoryRepository { table: MemoryTable::new(page_size) }
    }

    /// Writes one staged item, replacing any row under the same key.
    pub fn create_execution_item(&mut self, item: &ExecutionItem) -> (r: Result<(), StoreError>)
        requires
            old(self).wf(),
        ensures
            final(self).wf(),
            r is Ok,
            final(self)@ == old(self)@.insert((item.execution_id@, item.guid@), execution_attrs(*item)),
    {
        let resp = self.table.execute(put_execution_item_request(item));
        finish_write(resp)
    }

    /// Writes staged items in chunks of at most `BATCH_LIMIT`, one bulk
    /// request per chunk, later items winning over earlier ones with the same key.
    pub fn create_execution_items(&mut self, items: &Vec<ExecutionItem>) -> (r: Result<(), StoreError>)
        requires
            old(self).wf(),
            old(self).table.bulk_requests + items@.len() <= u64::MAX,
        ensures
            final(self).wf(),
            r is Ok,
            final(self)@ == apply_ops(old(self)@, puts(execution_rows(items@))),
            final(self).table.bulk_requests == old(self).table.bulk_requests + chunk_count(
                items@.len(),
            ),
    {
        let mut m = BatchCreate::new(items);
        let ghost all = puts(execution_rows(items@));
        let ghost len = items@.len();
        let ghost start = self@;
        let ghost count0 = self.table.bulk_requests;
        assert(all.take(0) =~= Seq::<WriteOpView>::empty());
        while m.outcome.is_none()
            invariant
                self.wf(),
                m.wf(),
                rows_view(m.rows@) == execution_rows(items@),
                len == items@.len(),
                len == m.rows@.len(),
                all == puts(execution_rows(items@)),
                count0 == old(self).table.bulk_requests,
                count0 + len <= u64::MAX,
                start == old(self)@,
                self@ == apply_ops(start, all.take(m.next as int)),
                m.next % BATCH_LIMIT == 0 || m.next == len,
                self.table.bulk_requests == count0 + chunk_count(m.next as nat),
                m.outcome is Some ==> m.outcome == Some(Ok::<(), StoreError>(())) && m.next == len,
            decreases len - m.next,
        {
            let req = m.next_request();
            match req {
                Some(req) => {
                    let ghost next = m.next;
                    let ghost end = chunk_end(next as int, len as int);
                    proof {
                        lemma_chunk_count_step(next as nat, len as nat);
                        assert(chunk_count(end as nat) <= len) by (nonlinear_arith)
                            requires
                                chunk_count(end as nat) == (end + BATCH_LIMIT - 1) as nat
                                    / BATCH_LIMIT as nat,
                                end <= len,
                                end >= 1,
                        ;
                        assert(puts(rows_view(m.rows@).subrange(next as int, end)) =~= all.subrange(
                            next as int,
                            end,
                        ));
                        assert(all.take(next as int) + all.subrange(next as int, end) =~= all.take(end));
                        lemma_apply_ops_concat(start, all.take(next as int), all.subrange(next as int, end));
                    }
                    let resp = self.table.execute(req);
                    m.on_response(resp);
                },
                None => {},
            }
        }
        assert(all.take(len as int) =~= all);
        match m.outcome {
            Some(r) => r,
            None => Ok(()),
        }
    }

    /// The staged item of `guid` in run `execution_id`; `NotFound` when there is no row.
    pub fn get_execution_item(&mut self, execution_id: &str, guid: &str) -> (r: Result<ExecutionItem, StoreError>)
        requires
            old(self).wf(),
        ensures
            final(self).wf(),
            final(self)@ == old(self)@,
            old(self)@.contains_key((execution_id@, guid@)) ==> (r matches Ok(it) && decodes_execution_item(
                it,
                execution_id@,
                guid@,
                old(self)@[(execution_id@, guid@)],
            )),
            !old(self)@.contains_key((execution_id@, guid@)) ==> (r matches Err(StoreError::NotFound)),
    {
        let resp = self.table.execute(get_execution_item_request(execution_id, guid));
        read_execution_item(execution_id, guid, resp)
    }

    /// Sets the summary of an existing staged item, leaving its other
    /// attributes as they are; `Storage` when there is no such row.
    pub fn update_execution_item_summary(&mut self, execution_id: &str, guid: &str, summary: &str) -> (r: Result<(), StoreError>)
        requires
            old(self).wf(),
        ensures
            final(self).wf(),
            r is Ok <==> old(self)@.contains_key((execution_id@, guid@)),
            r matches Err(e) ==> e is Storage,
            r is Ok ==> final(self)@ == old(self)@.insert(
                (execution_id@, guid@),
                with_attr(old(self)@[(execution_id@, guid@)], (ATTR_SUMMARY@, AttrValueView::S(summary@))),
            ),
            r is Err ==> final(self)@ == old(self)@,
    {
        let resp = self.table.execute(set_summary_request(execution_id, guid, summary));
        finish_write(resp)
    }

    /// Deletes every row under run `execution_id` and gives their number.
    pub fn delete_items_by_execution_id(&mut self, execution_id: &str) -> (r: Result<usize, StoreError>)
        requires
            old(self).wf(),
        ensures
            final(self).wf(),
            r == Ok::<usize, StoreError>(keys_under(rows_view(old(self).table.rows@), execution_id@).len() as usize),
            forall|k: KeyView| #[trigger] final(self)@.contains_key(k) <==> (old(self)@.contains_key(k) && k.0 != execution_id@),
            forall|k: KeyView| #[trigger] final(self)@.contains_key(k) ==> final(self)@[k] == old(self)@[k],
    {
        let ghost start = self@;
        let ghost rows = rows_view(self.table.rows@);
        let ghost pk = execution_id@;
        let ghost found = keys_under(rows, pk);
        let ghost len = found.len();
        let ghost all = deletes(found);
        let ghost mut p: int = 0;
        let mut m = RunDeletion::new(execution_id);
        assert(rows.take(0) =~= Seq::<RowView>::empty());
        assert(keys_view(m.keys@) =~= keys_under(rows.take(0), pk));
        assert(rows.take(rows.len() as int) =~= rows);
        while m.outcome.is_none()
            invariant
                self.wf(),
                m.wf(),
                m.execution_id@ == pk,
                start == old(self)@,
                rows == rows_view(old(self).table.rows@),
                found == keys_under(rows, pk),
                len == found.len(),
                all == deletes(found),
                rows.take(rows.len() as int) == rows,
                m.querying ==> {
                    &&& self@ == start
                    &&& rows_view(self.table.rows@) == rows
                    &&& 0 <= p <= rows.len()
                    &&& keys_view(m.keys@) == keys_under(rows.take(p), pk)
                    &&& m.outcome is None
                    &&& match m.cursor {
                        None => p == 0,
                        Some(c) => 0 < p && rows[p - 1].0 == c@,
                    }
                },
                !m.querying ==> {
                    &&& keys_view(m.keys@) == found
                    &&& len == m.keys@.len()
                    &&& self@ == apply_ops(start, all.take(m.next as int))
                    &&& m.outcome is Some ==> m.outcome == Some(Ok::<usize, StoreError>(len as usize))
                        && m.next == len
                },
            decreases (if m.querying {
                1int
            } else {
                0int
            }),
                (if m.querying {
                    rows.len() - p
                } else {
                    len - m.next
                }),
        {
            let req = m.next_request();
            match req {
                Some(req) => {
                    if m.querying {
                        let ghost sv = match &m.cursor {
                            Some(c) => Some(c@),
                            None => None::<KeyView>,
                        };
                        proof {
                            if m.cursor is Some {
                                lemma_resume_after(rows, p - 1);
                            }
                            assert(resume_at(rows, sv) == p);
                            lemma_page_end(rows, pk, p, self.table.page_size as nat);
                        }
                        let ghost q = page_end(rows, pk, p, self.table.page_size as nat);
                        let resp = self.table.execute(req);
                        m.on_response(resp);
                        proof {
                            lemma_keys_under_split(rows, pk, p, q);
                            if q == rows.len() {
                                assert(rows.take(q) == rows);
                            }
                            p = q;
                        }
                    } else {
                        let ghost next = m.next;
                        let ghost end = chunk_end(next as int, len as int);
                        proof {
                            assert(deletes(keys_view(m.keys@).subrange(next as int, end)) =~= all.subrange(
                                next as int,
                                end,
                            ));
                            assert(all.take(next as int) + all.subrange(next as int, end) =~= all.take(end));
                            lemma_apply_ops_concat(start, all.take(next as int), all.subrange(next as int, end));
                        }
                        let resp = self.table.execute(req);
                        m.on_response(resp);
                    }
                },
                None => {},
            }
        }
        proof {
            assert(all.take(len as int) =~= all);
            lemma_apply_deletes(start, found);
            lemma_keys_under(rows, pk);
        }
        match m.outcome {
            Some(r) => r,
            None => Ok(0),
        }
    }

    /// Marks `item.guid` as processed; writing it again changes nothing.
    pub fn create_record_item(&mut self, item: &RecordItem) -> (r: Result<(), StoreError>)
        requires
            old(self).wf(),
        ensures
            final(self).wf(),
            r is Ok,
            final(self)@ == old(self)@.insert(record_key_view(item.guid@), record_attrs()),
    {
        let resp = self.table.execute(put_record_item_request(item.guid.as_str()));
        finish_write(resp)
    }

    /// The marker of `guid`; `NotFound` when there is none.
    pub fn get_record_item(&mut self, guid: &str) -> (r: Result<RecordItem, StoreError>)
        requires
            old(self).wf(),
        ensures
            final(self).wf(),
            final(self)@ == old(self)@,
            old(self)@.contains_key(record_key_view(guid@)) ==> (r matches Ok(it) && decodes_record_item(
                it,
                guid@,
                old(self)@[record_key_view(guid@)],
            )),
            !old(self)@.contains_key(record_key_view(guid@)) ==> (r matches Err(StoreError::NotFound)),
    {
        let resp = self.table.execute(get_record_item_request(guid, false));
        read_record_item(guid, resp)
    }

    /// Whether `guid` has been marked as processed.
    pub fn record_item_exists(&mut self, guid: &str) -> (r: Result<bool, StoreError>)
        requires
            old(self).wf(),
        ensures
            final(self).wf(),
            final(self)@ == old(self)@,
            r == Ok::<bool, StoreError>(old(self)@.contains_key(record_key_view(guid@))),
    {
        let resp = self.table.execute(get_record_item_request(guid, true));
        read_exists(resp)
    }
}

} // verus!
