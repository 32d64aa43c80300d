//! Bulk operations as step machines: each tells which table request comes
//! next and takes the table's response, so that whoever talks to the table
//! only carries requests and responses back and forth.

use crate::error::StoreError;
use crate::models::ExecutionItem;
use crate::store::{execution_attrs, execution_row, KeyView};
use crate::table::{
    keys_view, ops_view, rows_view, AttrValueView, Row, RowKey, TableRequest, TableResponse,
    WriteOp, WriteOpView,
};
use vstd::prelude::*;

verus! {

/// Most writes the table takes in one bulk request.
pub const BATCH_LIMIT: usize = 25;

/// End of the chunk that starts at `next` in a list of `len` entries.
pub open spec fn chunk_end(next: int, len: int) -> int {
    if next + BATCH_LIMIT <= len {
        next + BATCH_LIMIT
    } else {
        len
    }
}

/// Number of bulk requests that `n` entries take.
pub open spec fn chunk_count(n: nat) -> nat {
    (n + BATCH_LIMIT - 1) as nat / BATCH_LIMIT as nat
}

/// Puts of the given rows.
pub open spec fn puts(rows: Seq<((Seq<char>, Seq<char>), Seq<(Seq<char>, AttrValueView)>)>) -> Seq<
    WriteOpView,
> {
    rows.map_values(|r: ((Seq<char>, Seq<char>), Seq<(Seq<char>, AttrValueView)>)| WriteOpView::Put(r))
}

/// Deletes of the given keys.
pub open spec fn deletes(keys: Seq<KeyView>) -> Seq<WriteOpView> {
    keys.map_values(|k: KeyView| WriteOpView::Delete(k))
}

/// Row views of staged items.
pub open spec fn execution_rows(items: Seq<ExecutionItem>) -> Seq<
    ((Seq<char>, Seq<char>), Seq<(Seq<char>, AttrValueView)>),
> {
    items.map_values(|it: ExecutionItem| ((it.execution_id@, it.guid@), execution_attrs(it)))
}

fn next_chunk_end(next: usize, len: usize) -> (r: usize)
    requires
        next <= len,
    ensures
        r == chunk_end(next as int, len as int),
{
    if len - next >= BATCH_LIMIT {
        next + BATCH_LIMIT
    } else {
        len
    }
}

/// Writes staged items in chunks of at most `BATCH_LIMIT`, one bulk request
/// per chunk, stopping at the first chunk that fails or leaves rows unwritten.
/// Chunks written before stay written.
pub struct BatchCreate {
    /// The rows to write, in order.
    pub rows: Vec<Row>,
    /// Start of the next chunk.
    pub next: usize,
    /// Set once the work is over.
    pub outcome: Option<Result<(), StoreError>>,
}

impl BatchCreate {
    /// The next chunk starts within the rows while the work goes on.
    pub open spec fn wf(&self) -> bool {
        &&& self.next <= self.rows@.len()
        &&& self.outcome is None ==> self.next < self.rows@.len()
    }

    /// Machine writing `items`; with no items it is over at once.
    pub fn new(items: &Vec<ExecutionItem>) -> (r: BatchCreate)
        ensures
            r.wf(),
            rows_view(r.rows@) == execution_rows(items@),
            r.next == 0,
            items@.len() == 0 ==> r.outcome == Some(Ok::<(), StoreError>(())),
            items@.len() > 0 ==> r.outcome is None,
    {
        let mut rows: Vec<Row> = Vec::new();
        let mut i: usize = 0;
        while i < items.len()
            invariant
                i <= items@.len(),
                rows@.len() == i,
                forall|j: int| 0 <= j < i ==> (#[trigger] rows@[j])@ == execution_rows(items@)[j],
            decreases items@.len() - i,
        {
            rows.push(execution_row(&items[i]));
            i = i + 1;
        }
        assert(rows_view(rows@) =~= execution_rows(items@));
        let outcome = if items.len() == 0 {
            Some(Ok(()))
        } else {
            None
        };
        BatchCreate { rows, next: 0, outcome }
    }

    /// The bulk request for the next chunk; `None` once the work is over.
    pub fn next_request(&self) -> (r: Option<TableRequest>)
        requires
            self.wf(),
        ensures
            self.outcome is Some ==> r is None,
            self.outcome is None ==> (r matches Some(TableRequest::BatchWrite(ops)) && ops_view(ops@)
                == puts(rows_view(self.rows@).subrange(
                self.next as int,
                chunk_end(self.next as int, self.rows@.len() as int),
            ))),
    {
        if self.outcome.is_some() {
            return None;
        }
        let end = next_chunk_end(self.next, self.rows.len());
        let mut ops: Vec<WriteOp> = Vec::new();
        let mut i: usize = self.next;
        while i < end
            invariant
                self.next <= i <= end,
                end <= self.rows@.len(),
                ops@.len() == i - self.next,
                forall|j: int|
                    0 <= j < i - self.next ==> (#[trigger] ops@[j])@ == WriteOpView::Put(
                        self.rows@[self.next + j]@,
                    ),
            decreases end - i,
        {
            ops.push(WriteOp::Put(self.rows[i].copy()));
            i = i + 1;
        }
        assert(ops_view(ops@) =~= puts(rows_view(self.rows@).subrange(self.next as int, end as int)));
        Some(TableRequest::BatchWrite(ops))
    }

    /// Takes the response to the last bulk request: moves to the next chunk,
    /// finishes after the last one, or stops with `PartialWrite` (the keys the
    /// table left unwritten) or `Storage`.
    pub fn on_response(&mut self, resp: TableResponse)
        requires
            old(self).wf(),
            old(self).outcome is None,
        ensures
            final(self).wf(),
            final(self).rows == old(self).rows,
            ({
                let end = chunk_end(old(self).next as int, old(self).rows@.len() as int);
                match resp {
                    TableResponse::BatchDone { unprocessed } => if unprocessed@.len() == 0 {
                        &&& final(self).next == end
                        &&& end == old(self).rows@.len() ==> final(self).outcome == Some(
                            Ok::<(), StoreError>(()),
                        )
                        &&& end < old(self).rows@.len() ==> final(self).outcome is None
                    } else {
                        final(self).outcome == Some(
                            Err::<(), StoreError>(StoreError::PartialWrite { unprocessed }),
                        )
                    },
                    _ => final(self).outcome matches Some(Err(e)) && e is Storage,
                }
            }),
    {
        match resp {
            TableResponse::BatchDone { unprocessed } => {
                if unprocessed.len() == 0 {
                    let end = next_chunk_end(self.next, self.rows.len());
                    self.next = end;
                    if end == self.rows.len() {
                        self.outcome = Some(Ok(()));
                    }
                } else {
                    self.outcome = Some(Err(StoreError::PartialWrite { unprocessed }));
                }
            },
            TableResponse::Failed { message } => {
                self.outcome = Some(Err(StoreError::Storage { message }));
            },
            _ => {
                self.outcome = Some(
                    Err(
                        StoreError::Storage {
                            message: String::from_str("unexpected response from the table"),
                        },
                    ),
                );
            },
        }
    }
}

/// Deletes every row under one run identifier: follows the query's
/// continuation keys until none is left, then deletes the keys found in
/// chunks of at most `BATCH_LIMIT`, and gives the number deleted. Stops at the
/// first failing request or chunk left partly undone; chunks deleted before
/// stay deleted.
pub struct RunDeletion {
    pub execution_id: String,
    /// Keys found so far, in the order the table gave them.
    pub keys: Vec<RowKey>,
    /// Whether pages of keys are still being read.
    pub querying: bool,
    /// Key to continue the query after.
    pub cursor: Option<RowKey>,
    /// Start of the next chunk to delete.
    pub next: usize,
    /// Set once the work is over.
    pub outcome: Option<Result<usize, StoreError>>,
}

impl RunDeletion {
    /// Deleting starts once reading is over, and the next chunk starts within
    /// the keys while the work goes on.
    pub open spec fn wf(&self) -> bool {
        &&& self.next <= self.keys@.len()
        &&& self.querying ==> self.next == 0
        &&& (self.outcome is None && !self.querying) ==> self.next < self.keys@.len()
    }

    /// Machine deleting the rows of run `execution_id`.
    pub fn new(execution_id: &str) -> (r: RunDeletion)
        ensures
            r.wf(),
            r.execution_id@ == execution_id@,
            r.keys@.len() == 0,
            r.querying,
            r.cursor is None,
            r.outcome is None,
    {
        RunDeletion {
            execution_id: String::from_str(execution_id),
            keys: Vec::new(),
            querying: true,
            cursor: None,
            next: 0,
            outcome: None,
        }
    }

    /// The next request: a query for the next page of keys while reading,
    /// then one bulk delete per chunk; `None` once the work is over.
    pub fn next_request(&self) -> (r: Option<TableRequest>)
        requires
            self.wf(),
        ensures
            self.outcome is Some ==> r is None,
            self.outcome is None && self.querying ==> (r matches Some(
                TableRequest::Query { pk, start },
            ) && pk@ == self.execution_id@ && match self.cursor {
                Some(c) => start matches Some(s) && s@ == c@,
                None => start is None,
            }),
            self.outcome is None && !self.querying ==> (r matches Some(
                TableRequest::BatchWrite(ops),
            ) && ops_view(ops@) == deletes(
                keys_view(self.keys@).subrange(
                    self.next as int,
                    chunk_end(self.next as int, self.keys@.len() as int),
                ),
            )),
    {
        if self.outcome.is_some() {
            return None;
        }
        if self.querying {
            let start = match &self.cursor {
                Some(c) => Some(c.copy()),
                None => None,
            };
            return Some(TableRequest::Query { pk: self.execution_id.clone(), start });
        }
        let end = next_chunk_end(self.next, self.keys.len());
        let mut ops: Vec<WriteOp> = Vec::new();
        let mut i: usize = self.next;
        while i < end
            invariant
                self.next <= i <= end,
                end <= self.keys@.len(),
                ops@.len() == i - self.next,
                forall|j: int|
                    0 <= j < i - self.next ==> (#[trigger] ops@[j])@ == WriteOpView::Delete(
                        self.keys@[self.next + j]@,
                    ),
            decreases end - i,
        {
            ops.push(WriteOp::Delete(self.keys[i].copy()));
            i = i + 1;
        }
        assert(ops_view(ops@) =~= deletes(keys_view(self.keys@).subrange(self.next as int, end as int)));
        Some(TableRequest::BatchWrite(ops))
    }

    /// Takes the response to the last request. A page adds its keys and moves
    /// the cursor; a page without continuation key ends the reading (and the
    /// work, when no key was found). A bulk delete moves to the next chunk or
    /// finishes with the number of keys; leftovers stop with `PartialWrite`,
    /// anything else with `Storage`.
    pub fn on_response(&mut self, resp: TableResponse)
        requires
            old(self).wf(),
            old(self).outcome is None,
        ensures
            final(self).wf(),
            final(self).execution_id == old(self).execution_id,
            old(self).querying ==> match resp {
                TableResponse::Page { keys, last } => {
                    &&& keys_view(final(self).keys@) == keys_view(old(self).keys@) + keys_view(keys@)
                    &&& final(self).cursor == last
                    &&& final(self).querying == last is Some
                    &&& final(self).next == 0
                    &&& (last is None && final(self).keys@.len() == 0) ==> final(self).outcome
                        == Some(Ok::<usize, StoreError>(0))
                    &&& (last is Some || final(self).keys@.len() > 0) ==> final(self).outcome is None
                },
                _ => final(self).outcome matches Some(Err(e)) && e is Storage,
            },
            !old(self).querying ==> {
                let end = chunk_end(old(self).next as int, old(self).keys@.len() as int);
                &&& final(self).keys == old(self).keys
                &&& !final(self).querying
                &&& match resp {
                    TableResponse::BatchDone { unprocessed } => if unprocessed@.len() == 0 {
                        &&& final(self).next == end
                        &&& end == old(self).keys@.len() ==> final(self).outcome == Some(
                            Ok::<usize, StoreError>(end as usize),
                        )
                        &&& end < old(self).keys@.len() ==> final(self).outcome is None
                    } else {
                        final(self).outcome == Some(
                            Err::<usize, StoreError>(StoreError::PartialWrite { unprocessed }),
                        )
                    },
                    _ => final(self).outcome matches Some(Err(e)) && e is Storage,
                }
            },
    {
        if self.querying {
            match resp {
                TableResponse::Page { keys, last } => {
                    let mut page = keys;
                    let ghost before = self.keys@;
                    let ghost added = page@;
                    self.keys.append(&mut page);
                    assert(keys_view(self.keys@) =~= keys_view(before) + keys_view(added));
                    let done = last.is_none();
                    self.cursor = last;
                    if done {
                        self.querying = false;
                        if self.keys.len() == 0 {
                            self.outcome = Some(Ok(0));
                        }
                    }
                },
                TableResponse::Failed { message } => {
                    self.outcome = Some(Err(StoreError::Storage { message }));
                },
                _ => {
                    self.outcome = Some(
                        Err(
                            StoreError::Storage {
                                message: String::from_str("unexpected response from the table"),
                            },
                        ),
                    );
                },
            }
            return ;
        }
        match resp {
            TableResponse::BatchDone { unprocessed } => {
                if unprocessed.len() == 0 {
                    let end = next_chunk_end(self.next, self.keys.len());
                    self.next = end;
                    if end == self.keys.len() {
                        self.outcome = Some(Ok(end));
                    }
                } else {
                    self.outcome = Some(Err(StoreError::PartialWrite { unprocessed }));
                }
            },
            TableResponse::Failed { message } => {
                self.outcome = Some(Err(StoreError::Storage { message }));
            },
            _ => {
                self.outcome = Some(
                    Err(
                        StoreError::Storage {
                            message: String::from_str("unexpected response from the table"),
                        },
                    ),
                );
            },
        }
    }
}

} // verus!
