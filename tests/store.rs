use rss_bluesky_bridge::bulk::{BatchCreate, RunDeletion, BATCH_LIMIT};
use rss_bluesky_bridge::error::StoreError;
use rss_bluesky_bridge::memory::{MemoryRepository, MemoryTable};
use rss_bluesky_bridge::models::{ExecutionItem, ItemIdentifier, RecordItem};
use rss_bluesky_bridge::store::{
    decode_execution_item, execution_row, read_exists, record_key, record_row,
};
use rss_bluesky_bridge::table::{AttrValue, Attr, Row, RowKey, TableRequest, TableResponse, WriteOp};

fn item(run: &str, guid: &str, title: &str) -> ExecutionItem {
    ExecutionItem::starting_at(
        run.to_string(),
        guid.to_string(),
        Some(title.to_string()),
        Some(format!("description of {}", guid)),
        Some(format!("https://example.com/{}", guid)),
        Some("Mon, 01 Jan 2024 10:00:00 +0000".to_string()),
        1_700_000_000,
    )
    .unwrap()
}

fn items(run: &str, n: usize) -> Vec<ExecutionItem> {
    (0..n).map(|i| item(run, &format!("g{}", i), &format!("title {}", i))).collect()
}

fn key(pk: &str, sk: &str) -> RowKey {
    RowKey { pk: pk.to_string(), sk: sk.to_string() }
}

#[test]
fn marker_absent_then_present_and_create_is_repeatable() {
    let mut repo = MemoryRepository::new(10);
    assert!(!repo.record_item_exists("g1").unwrap());
    let marker = RecordItem::new("g1".to_string()).unwrap();
    repo.create_record_item(&marker).unwrap();
    assert!(repo.record_item_exists("g1").unwrap());
    repo.create_record_item(&marker).unwrap();
    assert!(repo.record_item_exists("g1").unwrap());
    assert!(!repo.record_item_exists("g2").unwrap());
}

#[test]
fn marker_reads_back_with_its_kind() {
    let mut repo = MemoryRepository::new(10);
    assert!(matches!(repo.get_record_item("g1"), Err(StoreError::NotFound)));
    repo.create_record_item(&RecordItem::new("g1".to_string()).unwrap()).unwrap();
    let got = repo.get_record_item("g1").unwrap();
    assert_eq!(got.guid, "g1");
    assert_eq!(got._type.as_deref(), Some("RecordItem"));
}

#[test]
fn marker_rows_are_prefixed() {
    let k = record_key("abc");
    assert_eq!(k.pk, "guid-abc");
    assert_eq!(k.sk, "A");
    let row = record_row("abc");
    assert_eq!(row.attrs.len(), 1);
    assert_eq!(row.attrs[0].name, "_TYPE");
}

#[test]
fn thirty_items_take_two_bulk_requests() {
    let mut repo = MemoryRepository::new(10);
    repo.create_execution_items(&items("run-1", 30)).unwrap();
    assert_eq!(repo.table.bulk_requests, 2);
    assert_eq!(repo.table.rows.len(), 30);
}

#[test]
fn chunk_sizes_follow_the_limit() {
    let batch = items("run-1", 30);
    let mut m = BatchCreate::new(&batch);
    let mut sizes = Vec::new();
    while let Some(req) = m.next_request() {
        match req {
            TableRequest::BatchWrite(ops) => sizes.push(ops.len()),
            _ => panic!("unexpected request"),
        }
        m.on_response(TableResponse::BatchDone { unprocessed: Vec::new() });
    }
    assert_eq!(sizes, vec![BATCH_LIMIT, 5]);
    assert!(matches!(m.outcome, Some(Ok(()))));
}

#[test]
fn empty_batch_sends_nothing() {
    let mut repo = MemoryRepository::new(10);
    repo.create_execution_items(&Vec::new()).unwrap();
    assert_eq!(repo.table.bulk_requests, 0);
    assert!(BatchCreate::new(&Vec::new()).next_request().is_none());
}

#[test]
fn unprocessed_rows_stop_the_batch() {
    let batch = items("run-1", 30);
    let mut m = BatchCreate::new(&batch);
    assert!(m.next_request().is_some());
    m.on_response(TableResponse::BatchDone { unprocessed: vec![key("run-1", "g3")] });
    match &m.outcome {
        Some(Err(StoreError::PartialWrite { unprocessed })) => {
            assert_eq!(unprocessed.len(), 1);
            assert_eq!(unprocessed[0].sk, "g3");
        }
        other => panic!("unexpected outcome {:?}", other),
    }
    assert!(m.next_request().is_none());
}

#[test]
fn failed_bulk_request_is_a_storage_error() {
    let batch = items("run-1", 3);
    let mut m = BatchCreate::new(&batch);
    m.on_response(TableResponse::Failed { message: "throttled".to_string() });
    match &m.outcome {
        Some(Err(StoreError::Storage { message })) => assert_eq!(message, "throttled"),
        other => panic!("unexpected outcome {:?}", other),
    }
}

#[test]
fn overlapping_batches_last_write_wins() {
    let mut repo = MemoryRepository::new(10);
    repo.create_execution_items(&vec![item("run-1", "g1", "first"), item("run-1", "g2", "other")]).unwrap();
    repo.create_execution_items(&vec![item("run-1", "g1", "second")]).unwrap();
    let got = repo.get_execution_item("run-1", "g1").unwrap();
    assert_eq!(got.title.as_deref(), Some("second"));
    assert_eq!(repo.get_execution_item("run-1", "g2").unwrap().title.as_deref(), Some("other"));
}

#[test]
fn delete_by_run_removes_all_thirty_rows() {
    let mut repo = MemoryRepository::new(7);
    repo.create_execution_items(&items("run-42", 30)).unwrap();
    repo.create_execution_items(&items("run-7", 3)).unwrap();
    assert_eq!(repo.delete_items_by_execution_id("run-42").unwrap(), 30);
    for i in 0..30 {
        assert!(matches!(
            repo.get_execution_item("run-42", &format!("g{}", i)),
            Err(StoreError::NotFound)
        ));
    }
    assert!(repo.get_execution_item("run-7", "g1").is_ok());
    assert_eq!(repo.delete_items_by_execution_id("run-42").unwrap(), 0);
}

#[test]
fn deletion_follows_continuation_keys() {
    let mut m = RunDeletion::new("run-1");
    match m.next_request() {
        Some(TableRequest::Query { pk, start }) => {
            assert_eq!(pk, "run-1");
            assert!(start.is_none());
        }
        _ => panic!("expected a query"),
    }
    m.on_response(TableResponse::Page {
        keys: vec![key("run-1", "a"), key("run-1", "b")],
        last: Some(key("run-1", "b")),
    });
    match m.next_request() {
        Some(TableRequest::Query { start: Some(s), .. }) => assert_eq!(s.sk, "b"),
        _ => panic!("expected a query after the cursor"),
    }
    m.on_response(TableResponse::Page { keys: vec![key("run-1", "c")], last: None });
    match m.next_request() {
        Some(TableRequest::BatchWrite(ops)) => {
            assert_eq!(ops.len(), 3);
            assert!(ops.iter().all(|op| matches!(op, WriteOp::Delete(_))));
        }
        _ => panic!("expected a bulk delete"),
    }
    m.on_response(TableResponse::BatchDone { unprocessed: Vec::new() });
    assert!(matches!(m.outcome, Some(Ok(3))));
}

#[test]
fn deletion_leftovers_are_reported() {
    let mut m = RunDeletion::new("run-1");
    m.on_response(TableResponse::Page { keys: vec![key("run-1", "a")], last: None });
    m.on_response(TableResponse::BatchDone { unprocessed: vec![key("run-1", "a")] });
    assert!(matches!(m.outcome, Some(Err(StoreError::PartialWrite { .. }))));
}

#[test]
fn summary_update_needs_the_row() {
    let mut repo = MemoryRepository::new(10);
    assert!(matches!(
        repo.update_execution_item_summary("run-1", "g1", "short"),
        Err(StoreError::Storage { .. })
    ));
    assert_eq!(repo.table.rows.len(), 0);
    repo.create_execution_item(&item("run-1", "g1", "t")).unwrap();
    repo.update_execution_item_summary("run-1", "g1", "short").unwrap();
    let got = repo.get_execution_item("run-1", "g1").unwrap();
    assert_eq!(got.summary.as_deref(), Some("short"));
    assert_eq!(got.title.as_deref(), Some("t"));
    repo.update_execution_item_summary("run-1", "g1", "shorter").unwrap();
    assert_eq!(repo.get_execution_item("run-1", "g1").unwrap().summary.as_deref(), Some("shorter"));
}

#[test]
fn staged_item_reads_back_whole() {
    let mut repo = MemoryRepository::new(10);
    let it = item("run-1", "g1", "title");
    repo.create_execution_item(&it).unwrap();
    let got = repo.get_execution_item("run-1", "g1").unwrap();
    assert_eq!(got.execution_id, "run-1");
    assert_eq!(got.guid, "g1");
    assert_eq!(got.title, it.title);
    assert_eq!(got.description, it.description);
    assert_eq!(got.link, it.link);
    assert_eq!(got.summary, None);
    assert_eq!(got.ttl, Some(1_700_086_400));
    assert_eq!(got._type.as_deref(), Some("ExecutionItem"));
    assert_eq!(got.pub_date, it.pub_date);
}

#[test]
fn absent_fields_are_left_out_of_the_row() {
    let it = ExecutionItem::starting_at("run-1".to_string(), "g1".to_string(), None, None, None, None, 5)
        .unwrap();
    let row = execution_row(&it);
    let names: Vec<&str> = row.attrs.iter().map(|a| a.name.as_str()).collect();
    assert_eq!(names, vec!["ttl", "_TYPE"]);
    assert!(matches!(&row.attrs[0].value, AttrValue::N(n) if n == "86405"));
}

#[test]
fn attributes_of_the_wrong_type_decode_as_absent() {
    let row = Row {
        key: key("run-1", "g1"),
        attrs: vec![
            Attr { name: "title".to_string(), value: AttrValue::N("3".to_string()) },
            Attr { name: "ttl".to_string(), value: AttrValue::N("not a number".to_string()) },
            Attr { name: "link".to_string(), value: AttrValue::Other },
            Attr { name: "description".to_string(), value: AttrValue::S("d".to_string()) },
        ],
    };
    let it = decode_execution_item("run-1", "g1", &row);
    assert_eq!(it.title, None);
    assert_eq!(it.ttl, None);
    assert_eq!(it.link, None);
    assert_eq!(it.description.as_deref(), Some("d"));
    assert_eq!(it.summary, None);
}

#[test]
fn missing_item_is_not_found() {
    let mut repo = MemoryRepository::new(10);
    assert!(matches!(repo.get_execution_item("run-1", "nope"), Err(StoreError::NotFound)));
}

#[test]
fn exists_reads_other_responses_as_storage_errors() {
    assert!(matches!(read_exists(TableResponse::Written), Err(StoreError::Storage { .. })));
    assert_eq!(read_exists(TableResponse::Item(None)).unwrap(), false);
}

#[test]
fn blank_keys_are_validation_errors() {
    assert!(matches!(
        ExecutionItem::new(" ".to_string(), "g".to_string(), None, None, None, None),
        Err(StoreError::Validation { .. })
    ));
    assert!(matches!(
        ExecutionItem::new("run".to_string(), "\t".to_string(), None, None, None, None),
        Err(StoreError::Validation { .. })
    ));
    assert!(matches!(RecordItem::new("  ".to_string()), Err(StoreError::Validation { .. })));
    assert!(matches!(
        ItemIdentifier::new(String::new(), "g".to_string()),
        Err(StoreError::Validation { .. })
    ));
    let id = ItemIdentifier::new("run".to_string(), "g".to_string()).unwrap();
    assert_eq!((id.execution_id.as_str(), id.guid.as_str()), ("run", "g"));
}

#[test]
fn new_item_expires_a_day_later() {
    let it = ExecutionItem::new("run".to_string(), "g".to_string(), None, None, None, None).unwrap();
    let ttl = it.ttl.unwrap();
    assert!(ttl > 1_600_000_000 + 86_400);
    assert_eq!(it.summary, None);
    assert_eq!(it._type.as_deref(), Some("ExecutionItem"));
    let late = ExecutionItem::starting_at("r".to_string(), "g".to_string(), None, None, None, None, i64::MAX - 5)
        .unwrap();
    assert_eq!(late.ttl, Some(i64::MAX));
}

#[test]
fn memory_table_queries_one_partition() {
    let mut t = MemoryTable::new(10);
    t.execute(TableRequest::Put(Row { key: key("a", "1"), attrs: Vec::new() }));
    t.execute(TableRequest::Put(Row { key: key("b", "1"), attrs: Vec::new() }));
    t.execute(TableRequest::Put(Row { key: key("a", "2"), attrs: Vec::new() }));
    match t.execute(TableRequest::Query { pk: "a".to_string(), start: None }) {
        TableResponse::Page { keys, last } => {
            let sks: Vec<&str> = keys.iter().map(|k| k.sk.as_str()).collect();
            assert_eq!(sks, vec!["1", "2"]);
            assert!(last.is_none());
        }
        _ => panic!("expected a page"),
    }
}

#[test]
fn memory_table_pages_follow_the_continuation_key() {
    let mut t = MemoryTable::new(2);
    for (pk, sk) in [("a", "1"), ("b", "1"), ("a", "2"), ("a", "3")] {
        t.execute(TableRequest::Put(Row { key: key(pk, sk), attrs: Vec::new() }));
    }
    let (first, last) = match t.execute(TableRequest::Query { pk: "a".to_string(), start: None }) {
        TableResponse::Page { keys, last } => (keys, last),
        _ => panic!("expected a page"),
    };
    assert_eq!(first.iter().map(|k| k.sk.as_str()).collect::<Vec<_>>(), vec!["1", "2"]);
    let cursor = last.expect("more keys follow");
    assert_eq!(cursor.sk, "2");
    match t.execute(TableRequest::Query { pk: "a".to_string(), start: Some(cursor) }) {
        TableResponse::Page { keys, last } => {
            assert_eq!(keys.iter().map(|k| k.sk.as_str()).collect::<Vec<_>>(), vec!["3"]);
            assert!(last.is_none());
        }
        _ => panic!("expected a page"),
    }
}

#[test]
fn deletion_with_one_key_per_page() {
    let mut repo = MemoryRepository::new(1);
    repo.create_execution_items(&items("run-1", 4)).unwrap();
    repo.create_execution_items(&items("run-2", 2)).unwrap();
    assert_eq!(repo.delete_items_by_execution_id("run-1").unwrap(), 4);
    assert_eq!(repo.table.rows.len(), 2);
}
