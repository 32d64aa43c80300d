//! How staged items and processed-item markers are laid out as rows, the
//! requests that read and write them, and how responses are read back.

use crate::decimal::{format_i64, format_int, lemma_parse_format, parse_i64, parse_i64_spec};
use crate::error::StoreError;
use crate::models::{ExecutionItem, RecordItem, EXECUTION_KIND, RECORD_KIND};
use crate::table::{
    attrs_view, lookup, Attr, AttrValue, AttrValueView, Row, RowKey, TableRequest, TableResponse,
};
use vstd::prelude::*;

verus! {

/// View of a row key: partition key and sort key.
pub type KeyView = (Seq<char>, Seq<char>);

/// View of an attribute: name and value.
pub type AttrView = (Seq<char>, AttrValueView);

pub const ATTR_TITLE: &'static str = "title";
pub const ATTR_DESCRIPTION: &'static str = "description";
pub const ATTR_LINK: &'static str = "link";
pub const ATTR_SUMMARY: &'static str = "summary";
pub const ATTR_TTL: &'static str = "ttl";
pub const ATTR_KIND: &'static str = "_TYPE";
pub const ATTR_PUB_DATE: &'static str = "pub_date";

/// Prefix that keeps marker partition keys apart from run identifiers.
pub const RECORD_PREFIX: &'static str = "guid-";

/// The one sort key of every marker row.
pub const RECORD_SORT_KEY: &'static str = "A";

pub open spec fn opt_view(o: Option<String>) -> Option<Seq<char>> {
    match o {
        Some(s) => Some(s@),
        None => None,
    }
}

/// A string attribute when the value is present, nothing otherwise.
pub open spec fn text_attr(name: Seq<char>, v: Option<Seq<char>>) -> Seq<AttrView> {
    match v {
        Some(s) => seq![(name, AttrValueView::S(s))],
        None => seq![],
    }
}

/// The attributes of a staged item's row, absent fields left out.
pub open spec fn execution_attrs(it: ExecutionItem) -> Seq<AttrView> {
    text_attr(ATTR_TITLE@, opt_view(it.title)) + text_attr(ATTR_DESCRIPTION@, opt_view(it.description))
        + text_attr(ATTR_LINK@, opt_view(it.link)) + text_attr(ATTR_SUMMARY@, opt_view(it.summary))
        + match it.ttl {
        Some(t) => seq![(ATTR_TTL@, AttrValueView::N(format_int(t as int)))],
        None => seq![],
    } + if it._type is Some {
        seq![(ATTR_KIND@, AttrValueView::S(EXECUTION_KIND@))]
    } else {
        seq![]
    } + text_attr(ATTR_PUB_DATE@, opt_view(it.pub_date))
}

/// Key of the marker row of `guid`.
pub open spec fn record_key_view(guid: Seq<char>) -> KeyView {
    (RECORD_PREFIX@ + guid, RECORD_SORT_KEY@)
}

/// The attributes of a marker row.
pub open spec fn record_attrs() -> Seq<AttrView> {
    seq![(ATTR_KIND@, AttrValueView::S(RECORD_KIND@))]
}

/// A string attribute's text; absent when missing or of another type.
pub open spec fn text_of(v: Option<AttrValueView>) -> Option<Seq<char>> {
    match v {
        Some(AttrValueView::S(s)) => Some(s),
        _ => None,
    }
}

/// A number attribute's value; absent when missing, of another type, or not an `i64`.
pub open spec fn number_of(v: Option<AttrValueView>) -> Option<i64> {
    match v {
        Some(AttrValueView::N(s)) => parse_i64_spec(s),
        _ => None,
    }
}

/// `it` is the staged item read from a row of `attrs` under the given key.
pub open spec fn decodes_execution_item(
    it: ExecutionItem,
    execution_id: Seq<char>,
    guid: Seq<char>,
    attrs: Seq<AttrView>,
) -> bool {
    &&& it.execution_id@ == execution_id
    &&& it.guid@ == guid
    &&& opt_view(it.title) == text_of(lookup(attrs, ATTR_TITLE@))
    &&& opt_view(it.description) == text_of(lookup(attrs, ATTR_DESCRIPTION@))
    &&& opt_view(it.link) == text_of(lookup(attrs, ATTR_LINK@))
    &&& opt_view(it.summary) == text_of(lookup(attrs, ATTR_SUMMARY@))
    &&& it.ttl == number_of(lookup(attrs, ATTR_TTL@))
    &&& opt_view(it._type) == text_of(lookup(attrs, ATTR_KIND@))
    &&& opt_view(it.pub_date) == text_of(lookup(attrs, ATTR_PUB_DATE@))
}

/// `it` is the marker read from a row of `attrs` for `guid`.
pub open spec fn decodes_record_item(it: RecordItem, guid: Seq<char>, attrs: Seq<AttrView>) -> bool {
    it.guid@ == guid && opt_view(it._type) == text_of(lookup(attrs, ATTR_KIND@))
}

fn push_text(attrs: &mut Vec<Attr>, name: &str, v: &Option<String>)
    ensures
        attrs_view(final(attrs)@) == attrs_view(old(attrs)@) + text_attr(name@, opt_view(*v)),
{
    let ghost before = attrs@;
    match v {
        Some(s) => {
            attrs.push(Attr { name: String::from_str(name), value: AttrValue::S(s.clone()) });
        },
        None => {},
    }
    assert(attrs_view(attrs@) =~= attrs_view(before) + text_attr(name@, opt_view(*v)));
}

/// Key of the staged row of item `guid` in run `execution_id`.
pub fn execution_key(execution_id: &str, guid: &str) -> (r: RowKey)
    ensures
        r@ == (execution_id@, guid@),
{
    RowKey { pk: String::from_str(execution_id), sk: String::from_str(guid) }
}

/// Key of the marker row of `guid`.
pub fn record_key(guid: &str) -> (r: RowKey)
    ensures
        r@ == record_key_view(guid@),
{
    let mut pk = String::from_str(RECORD_PREFIX);
    pk.append(guid);
    RowKey { pk, sk: String::from_str(RECORD_SORT_KEY) }
}

/// The row of a staged item, absent fields left out.
pub fn execution_row(item: &ExecutionItem) -> (r: Row)
    ensures
        r@ == ((item.execution_id@, item.guid@), execution_attrs(*item)),
{
    let mut attrs: Vec<Attr> = Vec::new();
    push_text(&mut attrs, ATTR_TITLE, &item.title);
    push_text(&mut attrs, ATTR_DESCRIPTION, &item.description);
    push_text(&mut attrs, ATTR_LINK, &item.link);
    push_text(&mut attrs, ATTR_SUMMARY, &item.summary);
    let ghost before = attrs@;
    match item.ttl {
        Some(t) => {
            attrs.push(Attr { name: String::from_str(ATTR_TTL), value: AttrValue::N(format_i64(t)) });
        },
        None => {},
    }
    if item._type.is_some() {
        attrs.push(
            Attr { name: String::from_str(ATTR_KIND), value: AttrValue::S(String::from_str(EXECUTION_KIND)) },
        );
    }
    let ghost middle = attrs@;
    assert(attrs_view(middle) =~= attrs_view(before) + match item.ttl {
        Some(t) => seq![(ATTR_TTL@, AttrValueView::N(format_int(t as int)))],
        None => seq![],
    } + if item._type is Some {
        seq![(ATTR_KIND@, AttrValueView::S(EXECUTION_KIND@))]
    } else {
        seq![]
    });
    push_text(&mut attrs, ATTR_PUB_DATE, &item.pub_date);
    assert(attrs_view(attrs@) =~= execution_attrs(*item));
    Row { key: execution_key(item.execution_id.as_str(), item.guid.as_str()), attrs }
}

/// The row of the marker of `guid`.
pub fn record_row(guid: &str) -> (r: Row)
    ensures
        r@ == (record_key_view(guid@), record_attrs()),
{
    let mut attrs: Vec<Attr> = Vec::new();
    attrs.push(Attr { name: String::from_str(ATTR_KIND), value: AttrValue::S(String::from_str(RECORD_KIND)) });
    assert(attrs_view(attrs@) =~= record_attrs());
    Row { key: record_key(guid), attrs }
}

fn text_field(row: &Row, name: &str) -> (r: Option<String>)
    ensures
        opt_view(r) == text_of(lookup(row@.1, name@)),
{
    match row.get(name) {
        Some(AttrValue::S(s)) => Some(s.clone()),
        _ => None,
    }
}

fn number_field(row: &Row, name: &str) -> (r: Option<i64>)
    ensures
        r == number_of(lookup(row@.1, name@)),
{
    match row.get(name) {
        Some(AttrValue::N(s)) => parse_i64(s.as_str()),
        _ => None,
    }
}

/// Reads a staged item from its row, every optional field defaulting to
/// absent when its attribute is missing or of another type.
pub fn decode_execution_item(execution_id: &str, guid: &str, row: &Row) -> (r: ExecutionItem)
    ensures
        decodes_execution_item(r, execution_id@, guid@, row@.1),
{
    ExecutionItem {
        execution_id: String::from_str(execution_id),
        guid: String::from_str(guid),
        title: text_field(row, ATTR_TITLE),
        description: text_field(row, ATTR_DESCRIPTION),
        link: text_field(row, ATTR_LINK),
        summary: text_field(row, ATTR_SUMMARY),
        ttl: number_field(row, ATTR_TTL),
        _type: text_field(row, ATTR_KIND),
        pub_date: text_field(row, ATTR_PUB_DATE),
    }
}

/// Request writing one staged item.
pub fn put_execution_item_request(item: &ExecutionItem) -> (r: TableRequest)
    ensures
        r matches TableRequest::Put(row) && row@ == ((item.execution_id@, item.guid@), execution_attrs(
            *item,
        )),
{
    TableRequest::Put(execution_row(item))
}

/// Request reading one staged item.
pub fn get_execution_item_request(execution_id: &str, guid: &str) -> (r: TableRequest)
    ensures
        r matches TableRequest::Get { key, key_only } && key@ == (execution_id@, guid@) && !key_only,
{
    TableRequest::Get { key: execution_key(execution_id, guid), key_only: false }
}

/// Request setting the summary of an existing staged item, and nothing else.
pub fn set_summary_request(execution_id: &str, guid: &str, summary: &str) -> (r: TableRequest)
    ensures
        r matches TableRequest::SetAttr { key, attr } && key@ == (execution_id@, guid@) && attr@ == (
        ATTR_SUMMARY@, AttrValueView::S(summary@)),
{
    TableRequest::SetAttr {
        key: execution_key(execution_id, guid),
        attr: Attr { name: String::from_str(ATTR_SUMMARY), value: AttrValue::S(String::from_str(summary)) },
    }
}

/// Request writing the marker of `guid`.
pub fn put_record_item_request(guid: &str) -> (r: TableRequest)
    ensures
        r matches TableRequest::Put(row) && row@ == (record_key_view(guid@), record_attrs()),
{
    TableRequest::Put(record_row(guid))
}

/// Request reading the marker of `guid`; with `key_only`, only its key is wanted.
pub fn get_record_item_request(guid: &str, key_only: bool) -> (r: TableRequest)
    ensures
        r matches TableRequest::Get { key, key_only: k } && key@ == record_key_view(guid@) && k == key_only,
{
    TableRequest::Get { key: record_key(guid), key_only }
}

fn storage_error(resp: TableResponse) -> (r: StoreError)
    ensures
        r is Storage,
{
    match resp {
        TableResponse::Failed { message } => StoreError::Storage { message },
        _ => StoreError::Storage { message: String::from_str("unexpected response from the table") },
    }
}

/// Outcome of a single-row write.
pub fn finish_write(resp: TableResponse) -> (r: Result<(), StoreError>)
    ensures
        r is Ok <==> resp is Written,
        r matches Err(e) ==> e is Storage,
{
    match resp {
        TableResponse::Written => Ok(()),
        _ => Err(storage_error(resp)),
    }
}

/// Outcome of reading a staged item: the item, `NotFound` when there is no row.
pub fn read_execution_item(execution_id: &str, guid: &str, resp: TableResponse) -> (r: Result<ExecutionItem, StoreError>)
    ensures
        match resp {
            TableResponse::Item(Some(row)) => r matches Ok(it) && decodes_execution_item(it, execution_id@, guid@, row@.1),
            TableResponse::Item(None) => r matches Err(StoreError::NotFound),
            _ => r matches Err(e) && e is Storage,
        },
{
    match resp {
        TableResponse::Item(Some(row)) => Ok(decode_execution_item(execution_id, guid, &row)),
        TableResponse::Item(None) => Err(StoreError::NotFound),
        _ => Err(storage_error(resp)),
    }
}

/// Outcome of reading a marker: the marker, `NotFound` when there is no row.
pub fn read_record_item(guid: &str, resp: TableResponse) -> (r: Result<RecordItem, StoreError>)
    ensures
        match resp {
            TableResponse::Item(Some(row)) => r matches Ok(it) && decodes_record_item(it, guid@, row@.1),
            TableResponse::Item(None) => r matches Err(StoreError::NotFound),
            _ => r matches Err(e) && e is Storage,
        },
{
    match resp {
        TableResponse::Item(Some(row)) => Ok(RecordItem { guid: String::from_str(guid), _type: text_field(&row, ATTR_KIND) }),
        TableResponse::Item(None) => Err(StoreError::NotFound),
        _ => Err(storage_error(resp)),
    }
}

/// Outcome of probing for a marker: whether its row is present.
pub fn read_exists(resp: TableResponse) -> (r: Result<bool, StoreError>)
    ensures
        match resp {
            TableResponse::Item(found) => r == Ok::<bool, StoreError>(found is Some),
            _ => r matches Err(e) && e is Storage,
        },
{
    match resp {
        TableResponse::Item(found) => Ok(found.is_some()),
        _ => Err(storage_error(resp)),
    }
}

proof fn lemma_lookup_concat(a: Seq<AttrView>, b: Seq<AttrView>, name: Seq<char>)
    ensures
        lookup(a + b, name) == (if lookup(a, name) is Some {
            lookup(a, name)
        } else {
            lookup(b, name)
        }),
    decreases a.len(),
{
    if a.len() == 0 {
        assert(a + b =~= b);
    } else {
        assert((a + b).drop_first() =~= a.drop_first() + b);
        lemma_lookup_concat(a.drop_first(), b, name);
    }
}

proof fn lemma_lookup_single(a: AttrView, name: Seq<char>)
    ensures
        lookup(seq![a], name) == (if a.0 == name {
            Some(a.1)
        } else {
            None
        }),
{
    let one = seq![a];
    assert(one.drop_first() =~= Seq::<AttrView>::empty());
    assert(one[0] == a);
    assert(lookup(one.drop_first(), name) is None);
}

proof fn lemma_lookup_text_attr(n: Seq<char>, v: Option<Seq<char>>, name: Seq<char>)
    ensures
        lookup(text_attr(n, v), name) == (match v {
            Some(x) => if n == name {
                Some(AttrValueView::S(x))
            } else {
                None
            },
            None => None,
        }),
{
    match v {
        Some(x) => lemma_lookup_single((n, AttrValueView::S(x)), name),
        None => {},
    }
}

proof fn lemma_attr_names_differ()
    ensures
        ATTR_TITLE@ != ATTR_DESCRIPTION@,
        ATTR_TITLE@ != ATTR_LINK@,
        ATTR_TITLE@ != ATTR_SUMMARY@,
        ATTR_TITLE@ != ATTR_TTL@,
        ATTR_TITLE@ != ATTR_KIND@,
        ATTR_TITLE@ != ATTR_PUB_DATE@,
        ATTR_DESCRIPTION@ != ATTR_LINK@,
        ATTR_DESCRIPTION@ != ATTR_SUMMARY@,
        ATTR_DESCRIPTION@ != ATTR_TTL@,
        ATTR_DESCRIPTION@ != ATTR_KIND@,
        ATTR_DESCRIPTION@ != ATTR_PUB_DATE@,
        ATTR_LINK@ != ATTR_SUMMARY@,
        ATTR_LINK@ != ATTR_TTL@,
        ATTR_LINK@ != ATTR_KIND@,
        ATTR_LINK@ != ATTR_PUB_DATE@,
        ATTR_SUMMARY@ != ATTR_TTL@,
        ATTR_SUMMARY@ != ATTR_KIND@,
        ATTR_SUMMARY@ != ATTR_PUB_DATE@,
        ATTR_TTL@ != ATTR_KIND@,
        ATTR_TTL@ != ATTR_PUB_DATE@,
        ATTR_KIND@ != ATTR_PUB_DATE@,
{
    reveal_strlit("title");
    reveal_strlit("description");
    reveal_strlit("link");
    reveal_strlit("summary");
    reveal_strlit("ttl");
    reveal_strlit("_TYPE");
    reveal_strlit("pub_date");
    assert(ATTR_TITLE@.len() == 5);
    assert(ATTR_DESCRIPTION@.len() == 11);
    assert(ATTR_LINK@.len() == 4);
    assert(ATTR_SUMMARY@.len() == 7);
    assert(ATTR_TTL@.len() == 3);
    assert(ATTR_KIND@.len() == 5);
    assert(ATTR_PUB_DATE@.len() == 8);
    assert(ATTR_TITLE@[0] != ATTR_KIND@[0]);
}

/// A staged item read back from the row it is written as has the same
/// fields, except its kind tag, which reads back as `ExecutionItem` whenever
/// it was set.
pub proof fn lemma_staged_item_reads_back(it: ExecutionItem, r: ExecutionItem)
    requires
        decodes_execution_item(r, it.execution_id@, it.guid@, execution_attrs(it)),
    ensures
        r.execution_id@ == it.execution_id@,
        r.guid@ == it.guid@,
        opt_view(r.title) == opt_view(it.title),
        opt_view(r.description) == opt_view(it.description),
        opt_view(r.link) == opt_view(it.link),
        opt_view(r.summary) == opt_view(it.summary),
        r.ttl == it.ttl,
        opt_view(r._type) == (if it._type is Some {
            Some(EXECUTION_KIND@)
        } else {
            None::<Seq<char>>
        }),
        opt_view(r.pub_date) == opt_view(it.pub_date),
{
    lemma_attr_names_differ();
    let t1 = text_attr(ATTR_TITLE@, opt_view(it.title));
    let t2 = text_attr(ATTR_DESCRIPTION@, opt_view(it.description));
    let t3 = text_attr(ATTR_LINK@, opt_view(it.link));
    let t4 = text_attr(ATTR_SUMMARY@, opt_view(it.summary));
    let t5: Seq<AttrView> = match it.ttl {
        Some(t) => seq![(ATTR_TTL@, AttrValueView::N(format_int(t as int)))],
        None => seq![],
    };
    let t6: Seq<AttrView> = if it._type is Some {
        seq![(ATTR_KIND@, AttrValueView::S(EXECUTION_KIND@))]
    } else {
        seq![]
    };
    let t7 = text_attr(ATTR_PUB_DATE@, opt_view(it.pub_date));
    let names = seq![ATTR_TITLE@, ATTR_DESCRIPTION@, ATTR_LINK@, ATTR_SUMMARY@, ATTR_TTL@, ATTR_KIND@, ATTR_PUB_DATE@];
    assert forall|i: int| 0 <= i < 7 implies lookup(execution_attrs(it), #[trigger] names[i]) == {
        let n = names[i];
        let l1 = lookup(t1, n);
        let l2 = lookup(t2, n);
        let l3 = lookup(t3, n);
        let l4 = lookup(t4, n);
        let l5 = lookup(t5, n);
        let l6 = lookup(t6, n);
        let l7 = lookup(t7, n);
        if l1 is Some { l1 } else if l2 is Some { l2 } else if l3 is Some { l3 } else if l4 is Some { l4 }
        else if l5 is Some { l5 } else if l6 is Some { l6 } else { l7 }
    } by {
        let n = names[i];
        lemma_lookup_concat(t1, t2, n);
        lemma_lookup_concat(t1 + t2, t3, n);
        lemma_lookup_concat(t1 + t2 + t3, t4, n);
        lemma_lookup_concat(t1 + t2 + t3 + t4, t5, n);
        lemma_lookup_concat(t1 + t2 + t3 + t4 + t5, t6, n);
        lemma_lookup_concat(t1 + t2 + t3 + t4 + t5 + t6, t7, n);
    }
    assert forall|i: int| 0 <= i < 7 implies {
        let n = #[trigger] names[i];
        &&& lookup(t1, n) == (if n == ATTR_TITLE@ { lookup(t1, ATTR_TITLE@) } else { None })
        &&& lookup(t2, n) == (if n == ATTR_DESCRIPTION@ { lookup(t2, ATTR_DESCRIPTION@) } else { None })
        &&& lookup(t3, n) == (if n == ATTR_LINK@ { lookup(t3, ATTR_LINK@) } else { None })
        &&& lookup(t4, n) == (if n == ATTR_SUMMARY@ { lookup(t4, ATTR_SUMMARY@) } else { None })
        &&& lookup(t5, n) == (if n == ATTR_TTL@ { lookup(t5, ATTR_TTL@) } else { None })
        &&& lookup(t6, n) == (if n == ATTR_KIND@ { lookup(t6, ATTR_KIND@) } else { None })
        &&& lookup(t7, n) == (if n == ATTR_PUB_DATE@ { lookup(t7, ATTR_PUB_DATE@) } else { None })
    } by {
        let n = names[i];
        lemma_lookup_text_attr(ATTR_TITLE@, opt_view(it.title), n);
        lemma_lookup_text_attr(ATTR_TITLE@, opt_view(it.title), ATTR_TITLE@);
        lemma_lookup_text_attr(ATTR_DESCRIPTION@, opt_view(it.description), n);
        lemma_lookup_text_attr(ATTR_DESCRIPTION@, opt_view(it.description), ATTR_DESCRIPTION@);
        lemma_lookup_text_attr(ATTR_LINK@, opt_view(it.link), n);
        lemma_lookup_text_attr(ATTR_LINK@, opt_view(it.link), ATTR_LINK@);
        lemma_lookup_text_attr(ATTR_SUMMARY@, opt_view(it.summary), n);
        lemma_lookup_text_attr(ATTR_SUMMARY@, opt_view(it.summary), ATTR_SUMMARY@);
        lemma_lookup_text_attr(ATTR_PUB_DATE@, opt_view(it.pub_date), n);
        lemma_lookup_text_attr(ATTR_PUB_DATE@, opt_view(it.pub_date), ATTR_PUB_DATE@);
        match it.ttl {
            Some(t) => {
                lemma_lookup_single((ATTR_TTL@, AttrValueView::N(format_int(t as int))), n);
                lemma_lookup_single((ATTR_TTL@, AttrValueView::N(format_int(t as int))), ATTR_TTL@);
            },
            None => {},
        }
        if it._type is Some {
            lemma_lookup_single((ATTR_KIND@, AttrValueView::S(EXECUTION_KIND@)), n);
            lemma_lookup_single((ATTR_KIND@, AttrValueView::S(EXECUTION_KIND@)), ATTR_KIND@);
        }
    }
    assert(names[0] == ATTR_TITLE@);
    assert(names[1] == ATTR_DESCRIPTION@);
    assert(names[2] == ATTR_LINK@);
    assert(names[3] == ATTR_SUMMARY@);
    assert(names[4] == ATTR_TTL@);
    assert(names[5] == ATTR_KIND@);
    assert(names[6] == ATTR_PUB_DATE@);
    lemma_lookup_text_attr(ATTR_TITLE@, opt_view(it.title), ATTR_TITLE@);
    lemma_lookup_text_attr(ATTR_DESCRIPTION@, opt_view(it.description), ATTR_DESCRIPTION@);
    lemma_lookup_text_attr(ATTR_LINK@, opt_view(it.link), ATTR_LINK@);
    lemma_lookup_text_attr(ATTR_SUMMARY@, opt_view(it.summary), ATTR_SUMMARY@);
    lemma_lookup_text_attr(ATTR_PUB_DATE@, opt_view(it.pub_date), ATTR_PUB_DATE@);
    match it.ttl {
        Some(t) => {
            lemma_lookup_single((ATTR_TTL@, AttrValueView::N(format_int(t as int))), ATTR_TTL@);
            lemma_parse_format(t);
        },
        None => {},
    }
    if it._type is Some {
        lemma_lookup_single((ATTR_KIND@, AttrValueView::S(EXECUTION_KIND@)), ATTR_KIND@);
    }
}

} // verus!
