//! The records kept in the table: staged items of a run and permanent
//! "already processed" markers.

use crate::error::StoreError;
use crate::text_utils::{is_blank, trim_text};
use vstd::prelude::*;

verus! {

/// Kind tag of a staged item.
pub const EXECUTION_KIND: &'static str = "ExecutionItem";

/// Kind tag of a processed-item marker.
pub const RECORD_KIND: &'static str = "RecordItem";

/// Lifetime of a staged item: one day, in seconds.
pub const TTL_SECONDS: i64 = 86_400;

/// Expiry time of an item staged at `now`, saturating at the largest `i64`.
pub open spec fn ttl_after(now: i64) -> i64 {
    if now <= i64::MAX - TTL_SECONDS {
        (now + TTL_SECONDS) as i64
    } else {
        i64::MAX
    }
}

/// Addresses one feed item within one pipeline run.
#[derive(Clone, Debug)]
pub struct ItemIdentifier {
    pub execution_id: String,
    pub guid: String,
}

/// A feed item staged for one run: keyed by run and item, expiring after a day.
#[derive(Clone, Debug)]
pub struct ExecutionItem {
    /// Identifier of the run; the partition key of the row.
    pub execution_id: String,
    /// Identifier of the feed item; the sort key of the row.
    pub guid: String,
    pub title: Option<String>,
    pub description: Option<String>,
    pub link: Option<String>,
    /// Filled in once, by the summarizing stage.
    pub summary: Option<String>,
    /// Expiry, in seconds since the Unix epoch.
    pub ttl: Option<i64>,
    /// Kind tag, `ExecutionItem` when set.
    pub _type: Option<String>,
    pub pub_date: Option<String>,
}

/// Marker that a feed item has been published once.
#[derive(Clone, Debug)]
pub struct RecordItem {
    pub guid: String,
    /// Kind tag, `RecordItem` when set.
    pub _type: Option<String>,
}

/// Relies on chrono's `Utc::now` and `DateTime::timestamp`: the current time,
/// in whole seconds since the Unix epoch. Nothing is promised of its value.
#[verifier::external_body]
fn unix_now() -> (r: i64) {
    chrono::Utc::now().timestamp()
}

/// Whether a text holds nothing but white space.
pub fn blank(s: &str) -> (r: bool)
    ensures
        r == is_blank(s@),
{
    trim_text(s).unicode_len() == 0
}

impl ItemIdentifier {
    /// An identifier; both parts must hold more than white space.
    pub fn new(execution_id: String, guid: String) -> (r: Result<ItemIdentifier, StoreError>)
        ensures
            r is Err <==> is_blank(execution_id@) || is_blank(guid@),
            r matches Err(e) ==> e is Validation,
            r matches Ok(id) ==> id.execution_id == execution_id && id.guid == guid,
    {
        if blank(execution_id.as_str()) || blank(guid.as_str()) {
            Err(StoreError::Validation {
                message: String::from_str("execution_id and guid cannot be empty"),
            })
        } else {
            Ok(ItemIdentifier { execution_id, guid })
        }
    }
}

impl ExecutionItem {
    /// A staged item expiring one day after `now` (seconds since the Unix
    /// epoch), with no summary yet. The run and item identifiers must hold
    /// more than white space.
    pub fn starting_at(
        execution_id: String,
        guid: String,
        title: Option<String>,
        description: Option<String>,
        link: Option<String>,
        pub_date: Option<String>,
        now: i64,
    ) -> (r: Result<ExecutionItem, StoreError>)
        ensures
            r is Err <==> is_blank(execution_id@) || is_blank(guid@),
            r matches Err(e) ==> e is Validation,
            r matches Ok(it) ==> {
                &&& it.execution_id == execution_id
                &&& it.guid == guid
                &&& it.title == title
                &&& it.description == description
                &&& it.link == link
                &&& it.summary is None
                &&& it.ttl == Some(ttl_after(now))
                &&& it._type matches Some(k) && k@ == EXECUTION_KIND@
                &&& it.pub_date == pub_date
            },
    {
        if blank(execution_id.as_str()) || blank(guid.as_str()) {
            return Err(StoreError::Validation {
                message: String::from_str("execution_id and guid cannot be empty"),
            });
        }
        let ttl = if now <= i64::MAX - TTL_SECONDS {
            now + TTL_SECONDS
        } else {
            i64::MAX
        };
        Ok(ExecutionItem {
            execution_id,
            guid,
            title,
            description,
            link,
            summary: None,
            ttl: Some(ttl),
            _type: Some(String::from_str(EXECUTION_KIND)),
            pub_date,
        })
    }

    /// A staged item expiring one day from the current time, with no summary
    /// yet. The run and item identifiers must hold more than white space.
    pub fn new(
        execution_id: String,
        guid: String,
        title: Option<String>,
        description: Option<String>,
        link: Option<String>,
        pub_date: Option<String>,
    ) -> (r: Result<ExecutionItem, StoreError>)
        ensures
            r is Err <==> is_blank(execution_id@) || is_blank(guid@),
            r matches Err(e) ==> e is Validation,
            r matches Ok(it) ==> {
                &&& it.execution_id == execution_id
                &&& it.guid == guid
                &&& it.title == title
                &&& it.description == description
                &&& it.link == link
                &&& it.summary is None
                &&& it.ttl is Some
                &&& it._type matches Some(k) && k@ == EXECUTION_KIND@
                &&& it.pub_date == pub_date
            },
    {
        let now = unix_now();
        ExecutionItem::starting_at(execution_id, guid, title, description, link, pub_date, now)
    }
}

impl RecordItem {
    /// A marker for `guid`, which must hold more than white space.
    pub fn new(guid: String) -> (r: Result<RecordItem, StoreError>)
        ensures
            r is Err <==> is_blank(guid@),
            r matches Err(e) ==> e is Validation,
            r matches Ok(it) ==> it.guid == guid && (it._type matches Some(k) && k@
                == RECORD_KIND@),
    {
        if blank(guid.as_str()) {
            Err(StoreError::Validation { message: String::from_str("GUID cannot be empty") })
        } else {
            Ok(RecordItem { guid, _type: Some(String::from_str(RECORD_KIND)) })
        }
    }
}

} // verus!
