//! Values exchanged with a key-value table that has a composite primary key:
//! rows, the requests the stores issue, and the responses they read.

use vstd::prelude::*;

verus! {

/// Composite primary key of a row: partition key and sort key.
#[derive(Clone, Debug)]
pub struct RowKey {
    pub pk: String,
    pub sk: String,
}

/// A typed attribute value as the table holds it: a string, a number in
/// decimal text, or any other kind of value.
#[derive(Clone, Debug)]
pub enum AttrValue {
    S(String),
    N(String),
    Other,
}

/// View of an attribute value.
pub enum AttrValueView {
    S(Seq<char>),
    N(Seq<char>),
    Other,
}

/// A named attribute of a row.
#[derive(Clone, Debug)]
pub struct Attr {
    pub name: String,
    pub value: AttrValue,
}

/// A row: its key and its other attributes.
#[derive(Clone, Debug)]
pub struct Row {
    pub key: RowKey,
    pub attrs: Vec<Attr>,
}

/// One item of a bulk write.
#[derive(Clone, Debug)]
pub enum WriteOp {
    Put(Row),
    Delete(RowKey),
}

/// A request to the table.
#[derive(Clone, Debug)]
pub enum TableRequest {
    /// Write a whole row, replacing any row with the same key.
    Put(Row),
    /// Read one row; with `key_only`, only its key is wanted back.
    Get { key: RowKey, key_only: bool },
    /// Set one attribute of an existing row; fails when the row does not exist.
    SetAttr { key: RowKey, attr: Attr },
    /// Read one page of the keys under a partition key, after `start` when given.
    Query { pk: String, start: Option<RowKey> },
    /// Apply several writes in one request.
    BatchWrite(Vec<WriteOp>),
}

/// A response of the table.
#[derive(Clone, Debug)]
pub enum TableResponse {
    /// A single-row write was applied.
    Written,
    /// The row read, if it exists.
    Item(Option<Row>),
    /// One page of keys, and the key to continue after when more may follow.
    Page { keys: Vec<RowKey>, last: Option<RowKey> },
    /// A bulk write was handled; the keys of the writes left unapplied.
    BatchDone { unprocessed: Vec<RowKey> },
    /// The request failed.
    Failed { message: String },
}

impl View for RowKey {
    type V = (Seq<char>, Seq<char>);

    open spec fn view(&self) -> (Seq<char>, Seq<char>) {
        (self.pk@, self.sk@)
    }
}

impl View for AttrValue {
    type V = AttrValueView;

    open spec fn view(&self) -> AttrValueView {
        match self {
            AttrValue::S(s) => AttrValueView::S(s@),
            AttrValue::N(s) => AttrValueView::N(s@),
            AttrValue::Other => AttrValueView::Other,
        }
    }
}

impl View for Attr {
    type V = (Seq<char>, AttrValueView);

    open spec fn view(&self) -> (Seq<char>, AttrValueView) {
        (self.name@, self.value@)
    }
}

/// Views of a list of attributes.
pub open spec fn attrs_view(a: Seq<Attr>) -> Seq<(Seq<char>, AttrValueView)> {
    a.map_values(|x: Attr| x@)
}

/// Views of a list of keys.
pub open spec fn keys_view(k: Seq<RowKey>) -> Seq<(Seq<char>, Seq<char>)> {
    k.map_values(|x: RowKey| x@)
}

impl View for Row {
    type V = ((Seq<char>, Seq<char>), Seq<(Seq<char>, AttrValueView)>);

    open spec fn view(&self) -> ((Seq<char>, Seq<char>), Seq<(Seq<char>, AttrValueView)>) {
        (self.key@, attrs_view(self.attrs@))
    }
}

/// View of one item of a bulk write.
pub enum WriteOpView {
    Put(((Seq<char>, Seq<char>), Seq<(Seq<char>, AttrValueView)>)),
    Delete((Seq<char>, Seq<char>)),
}

impl View for WriteOp {
    type V = WriteOpView;

    open spec fn view(&self) -> WriteOpView {
        match self {
            WriteOp::Put(row) => WriteOpView::Put(row@),
            WriteOp::Delete(key) => WriteOpView::Delete(key@),
        }
    }
}

/// Views of a list of bulk-write items.
pub open spec fn ops_view(ops: Seq<WriteOp>) -> Seq<WriteOpView> {
    ops.map_values(|x: WriteOp| x@)
}

/// Views of a list of rows.
pub open spec fn rows_view(rows: Seq<Row>) -> Seq<((Seq<char>, Seq<char>), Seq<(Seq<char>, AttrValueView)>)> {
    rows.map_values(|x: Row| x@)
}

/// The value of the first attribute named `name`, if any.
pub open spec fn lookup(attrs: Seq<(Seq<char>, AttrValueView)>, name: Seq<char>) -> Option<
    AttrValueView,
>
    decreases attrs.len(),
{
    if attrs.len() == 0 {
        None
    } else if attrs[0].0 == name {
        Some(attrs[0].1)
    } else {
        lookup(attrs.drop_first(), name)
    }
}

impl RowKey {
    /// A copy of the key.
    pub fn copy(&self) -> (r: RowKey)
        ensures
            r@ == self@,
    {
        RowKey { pk: self.pk.clone(), sk: self.sk.clone() }
    }

    /// Whether both keys name the same row.
    pub fn same(&self, other: &RowKey) -> (r: bool)
        ensures
            r == (self@ == other@),
    {
        self.pk == other.pk && self.sk == other.sk
    }
}

impl AttrValue {
    /// A copy with the same view.
    pub fn copy(&self) -> (r: AttrValue)
        ensures
            r@ == self@,
    {
        match self {
            AttrValue::S(s) => AttrValue::S(s.clone()),
            AttrValue::N(s) => AttrValue::N(s.clone()),
            AttrValue::Other => AttrValue::Other,
        }
    }
}

impl Attr {
    /// A copy with the same view.
    pub fn copy(&self) -> (r: Attr)
        ensures
            r@ == self@,
    {
        Attr { name: self.name.clone(), value: self.value.copy() }
    }
}

impl WriteOp {
    /// A copy with the same view.
    pub fn copy(&self) -> (r: WriteOp)
        ensures
            r@ == self@,
    {
        match self {
            WriteOp::Put(row) => WriteOp::Put(row.copy()),
            WriteOp::Delete(key) => WriteOp::Delete(key.copy()),
        }
    }
}

impl Row {
    /// A copy with the same view.
    pub fn copy(&self) -> (r: Row)
        ensures
            r@ == self@,
    {
        let mut attrs: Vec<Attr> = Vec::new();
        let mut i: usize = 0;
        while i < self.attrs.len()
            invariant
                i <= self.attrs@.len(),
                attrs@.len() == i,
                forall|j: int| 0 <= j < i ==> (#[trigger] attrs@[j])@ == self.attrs@[j]@,
            decreases self.attrs@.len() - i,
        {
            attrs.push(self.attrs[i].copy());
            i = i + 1;
        }
        assert(attrs_view(attrs@) =~= attrs_view(self.attrs@));
        Row { key: self.key.copy(), attrs }
    }

    /// The value of the first attribute named `name`, if any.
    pub fn get(&self, name: &str) -> (r: Option<&AttrValue>)
        ensures
            match r {
                Some(v) => lookup(self@.1, name@) == Some(v@),
                None => lookup(self@.1, name@) is None,
            },
    {
        let ghost all = attrs_view(self.attrs@);
        let wanted = String::from_str(name);
        let mut i: usize = 0;
        assert(all.skip(0) =~= all);
        while i < self.attrs.len()
            invariant
                i <= self.attrs@.len(),
                all == attrs_view(self.attrs@),
                wanted@ == name@,
                lookup(all, name@) == lookup(all.skip(i as int), name@),
            decreases self.attrs@.len() - i,
        {
            assert(all.skip(i as int).drop_first() =~= all.skip(i + 1));
            assert(all.len() == self.attrs@.len());
            assert(all.skip(i as int).len() > 0);
            assert(all.skip(i as int)[0] == self.attrs@[i as int]@);
            let hit = self.attrs[i].name == wanted;
            if hit {
                return Some(&self.attrs[i].value);
            }
            i = i + 1;
        }
        None
    }
}

} // verus!
