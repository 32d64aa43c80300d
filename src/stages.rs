//! Decisions of the pipeline stages, apart from the requests they send:
//! which feed entries get staged, what text is summarized and posted, and
//! how a run's per-item errors are tallied.

use crate::decimal::{format_i64, format_int};
use crate::models::{ExecutionItem, ItemIdentifier, ttl_after, TTL_SECONDS};
use crate::store::opt_view;
use crate::text_utils::{is_blank, truncate_to_word, truncated_text};
use crate::models::blank;
use vstd::prelude::*;

verus! {

/// Budget of a post's text, in grapheme clusters.
pub const POST_MAX_GRAPHEMES: usize = 300;

/// Budget of a stored summary, in grapheme clusters.
pub const SUMMARY_MAX_GRAPHEMES: usize = 290;

/// Seconds in an hour.
pub const SECONDS_PER_HOUR: i64 = 3600;

/// Earliest instant whose local date, under any offset of less than a day,
/// falls in year 0 or later.
pub const RENDERABLE_FROM: i64 = -62_167_132_800;

/// Latest instant whose local date, under any offset of less than a day,
/// falls in year 9999 or earlier.
pub const RENDERABLE_UNTIL: i64 = 253_402_214_399;

/// The instant an RFC 2822 date-time denotes, in seconds since the Unix
/// epoch; `None` when the text is not one.
pub uninterp spec fn rfc2822_instant(s: Seq<char>) -> Option<i64>;

/// The RFC 2822 rendering, in its own offset, of the date-time that `s` holds.
pub uninterp spec fn rfc2822_rendering(s: Seq<char>) -> Seq<char>;

/// Relies on chrono's `DateTime::parse_from_rfc2822` and `DateTime::timestamp`:
/// the seconds since the Unix epoch of the date-time in `s`, or `None` when
/// `s` does not parse.
#[verifier::external_body]
fn rfc2822_seconds(s: &str) -> (r: Option<i64>)
    ensures
        r == rfc2822_instant(s@),
{
    chrono::DateTime::parse_from_rfc2822(s).ok().map(|d| d.timestamp())
}

/// Relies on chrono's `DateTime::parse_from_rfc2822` and `DateTime::to_rfc2822`:
/// the date-time in `s` rendered again in RFC 2822 form. Rendering fails only
/// for local years outside 0..=9999, which `requires` leaves out.
#[verifier::external_body]
fn rfc2822_normalized(s: &str) -> (r: String)
    requires
        rfc2822_instant(s@) matches Some(t) && RENDERABLE_FROM <= t <= RENDERABLE_UNTIL,
    ensures
        r@ == rfc2822_rendering(s@),
{
    chrono::DateTime::parse_from_rfc2822(s).map(|d| d.to_rfc2822()).unwrap_or_default()
}

/// An entry of the feed, as read from it.
#[derive(Clone, Debug)]
pub struct FeedEntry {
    pub guid: Option<String>,
    pub title: Option<String>,
    pub description: Option<String>,
    pub link: Option<String>,
    pub pub_date: Option<String>,
}

/// Whole hours in `secs` seconds, rounded toward zero.
pub open spec fn whole_hours(secs: int) -> int {
    if secs >= 0 {
        secs / SECONDS_PER_HOUR as int
    } else {
        -((-secs) / SECONDS_PER_HOUR as int)
    }
}

/// Publication instant of an entry, when it has a date that can be read and
/// rendered again.
pub open spec fn entry_instant(e: FeedEntry) -> Option<i64> {
    match e.pub_date {
        Some(p) => match rfc2822_instant(p@) {
            Some(t) => if RENDERABLE_FROM <= t <= RENDERABLE_UNTIL {
                Some(t)
            } else {
                None
            },
            None => None,
        },
        None => None,
    }
}

/// An entry is staged when it has a readable date, is at most `max_age_hours`
/// whole hours old at `now`, and has a guid.
pub open spec fn is_staged(e: FeedEntry, now: i64, max_age_hours: i64) -> bool {
    &&& entry_instant(e) matches Some(t) && whole_hours(now - t) <= max_age_hours
    &&& e.guid is Some
}

/// The entries that get staged, in feed order.
pub open spec fn staged_entries(entries: Seq<FeedEntry>, now: i64, max_age_hours: i64) -> Seq<
    FeedEntry,
>
    decreases entries.len(),
{
    if entries.len() == 0 {
        Seq::empty()
    } else if is_staged(entries.last(), now, max_age_hours) {
        staged_entries(entries.drop_last(), now, max_age_hours).push(entries.last())
    } else {
        staged_entries(entries.drop_last(), now, max_age_hours)
    }
}

/// `it` is the staged item of entry `e` in run `execution_id`, staged at `now`.
pub open spec fn stages_entry(it: ExecutionItem, e: FeedEntry, execution_id: Seq<char>, now: i64) -> bool {
    &&& it.execution_id@ == execution_id
    &&& opt_view(Some(it.guid)) == opt_view(e.guid)
    &&& opt_view(it.title) == opt_view(e.title)
    &&& opt_view(it.description) == opt_view(e.description)
    &&& opt_view(it.link) == opt_view(e.link)
    &&& it.summary is None
    &&& it.ttl == Some(ttl_after(now))
    &&& it._type is None
    &&& e.pub_date matches Some(p) && opt_view(it.pub_date) == Some(rfc2822_rendering(p@))
}

fn copy_text(o: &Option<String>) -> (r: Option<String>)
    ensures
        opt_view(r) == opt_view(*o),
{
    match o {
        Some(s) => Some(s.clone()),
        None => None,
    }
}

/// Stages the recent entries of a feed for run `execution_id`: each entry
/// with a readable date no more than `max_age_hours` whole hours before `now`
/// and with a guid becomes an item expiring a day after `now`, its date
/// rendered again in RFC 2822 form; the identifiers come alongside.
pub fn stage_feed_entries(
    execution_id: &str,
    entries: &Vec<FeedEntry>,
    now: i64,
    max_age_hours: i64,
) -> (r: (Vec<ExecutionItem>, Vec<ItemIdentifier>))
    ensures
        ({
            let kept = staged_entries(entries@, now, max_age_hours);
            &&& r.0@.len() == kept.len()
            &&& r.1@.len() == kept.len()
            &&& forall|i: int|
                0 <= i < kept.len() ==> stages_entry(#[trigger] r.0@[i], kept[i], execution_id@, now)
            &&& forall|i: int|
                0 <= i < kept.len() ==> (#[trigger] r.1@[i]).execution_id@ == execution_id@
                    && r.1@[i].guid@ == r.0@[i].guid@
        }),
{
    let ttl = if now <= i64::MAX - TTL_SECONDS {
        now + TTL_SECONDS
    } else {
        i64::MAX
    };
    let mut items: Vec<ExecutionItem> = Vec::new();
    let mut ids: Vec<ItemIdentifier> = Vec::new();
    let mut i: usize = 0;
    while i < entries.len()
        invariant
            i <= entries@.len(),
            ttl == ttl_after(now),
            items@.len() == staged_entries(entries@.take(i as int), now, max_age_hours).len(),
            ids@.len() == items@.len(),
            forall|j: int|
                0 <= j < items@.len() ==> stages_entry(
                    #[trigger] items@[j],
                    staged_entries(entries@.take(i as int), now, max_age_hours)[j],
                    execution_id@,
                    now,
                ),
            forall|j: int|
                0 <= j < items@.len() ==> (#[trigger] ids@[j]).execution_id@ == execution_id@
                    && ids@[j].guid@ == items@[j].guid@,
        decreases entries@.len() - i,
    {
        let ghost before = staged_entries(entries@.take(i as int), now, max_age_hours);
        proof {
            assert(entries@.take(i + 1).drop_last() =~= entries@.take(i as int));
        }
        let e = &entries[i];
        let mut staged: Option<(i64, String)> = None;
        match &e.pub_date {
            Some(p) => match rfc2822_seconds(p.as_str()) {
                Some(t) => {
                    if RENDERABLE_FROM <= t && t <= RENDERABLE_UNTIL {
                        let age = (now as i128) - (t as i128);
                        let hours = if age >= 0 {
                            age / (SECONDS_PER_HOUR as i128)
                        } else {
                            -((-age) / (SECONDS_PER_HOUR as i128))
                        };
                        if hours <= max_age_hours as i128 {
                            staged = Some((t, rfc2822_normalized(p.as_str())));
                        }
                    }
                },
                None => {},
            },
            None => {},
        }
        match (staged, &e.guid) {
            (Some((_, date)), Some(g)) => {
                let ghost n = items@.len();
                items.push(
                    ExecutionItem {
                        execution_id: String::from_str(execution_id),
                        guid: g.clone(),
                        title: copy_text(&e.title),
                        description: copy_text(&e.description),
                        link: copy_text(&e.link),
                        summary: None,
                        ttl: Some(ttl),
                        _type: None,
                        pub_date: Some(date),
                    },
                );
                ids.push(ItemIdentifier { execution_id: String::from_str(execution_id), guid: g.clone() });
                assert(is_staged(entries@[i as int], now, max_age_hours));
                assert(staged_entries(entries@.take(i + 1), now, max_age_hours) == before.push(entries@[i as int]));
                assert(stages_entry(items@[n as int], entries@[i as int], execution_id@, now));
            },
            _ => {
                assert(!is_staged(entries@[i as int], now, max_age_hours));
            },
        }
        i = i + 1;
    }
    assert(entries@.take(i as int) =~= entries@);
    (items, ids)
}

/// A stored summary that holds more than white space.
pub open spec fn usable_summary(summary: Option<String>) -> bool {
    summary matches Some(s) && !is_blank(s@)
}

/// Text of a post: the stored summary when it holds more than white space,
/// otherwise the description cut to `POST_MAX_GRAPHEMES`.
pub fn post_text(summary: Option<String>, description: &str) -> (r: String)
    ensures
        usable_summary(summary) ==> summary == Some(r),
        !usable_summary(summary) ==> r@ == truncated_text(
            description@,
            POST_MAX_GRAPHEMES as nat,
        ),
{
    match summary {
        Some(s) => {
            if !blank(s.as_str()) {
                return s;
            }
        },
        None => {},
    }
    truncate_to_word(description, POST_MAX_GRAPHEMES)
}

/// Summary to store: the model's text, or the description when the model gave
/// none, cut to `SUMMARY_MAX_GRAPHEMES`.
pub fn stored_summary(model_text: Option<String>, description: &str) -> (r: String)
    ensures
        r@ == truncated_text(
            match model_text {
                Some(t) => t@,
                None => description@,
            },
            SUMMARY_MAX_GRAPHEMES as nat,
        ),
{
    match model_text {
        Some(t) => truncate_to_word(t.as_str(), SUMMARY_MAX_GRAPHEMES),
        None => truncate_to_word(description, SUMMARY_MAX_GRAPHEMES),
    }
}

pub const PROMPT_HEAD: &'static str = "\n\nHuman: Remove all html tags and summarize the following text in ";

pub const PROMPT_MIDDLE: &'static str = " graphemes or less:\n\n";

pub const PROMPT_TAIL: &'static str = "\n\nAssistant:";

/// The request to the summarizing model for `description`, with a budget of
/// `max_graphemes`.
pub fn summary_prompt(max_graphemes: i64, description: &str) -> (r: String)
    ensures
        r@ == PROMPT_HEAD@ + format_int(max_graphemes as int) + PROMPT_MIDDLE@ + description@
            + PROMPT_TAIL@,
{
    let mut r = String::from_str(PROMPT_HEAD);
    let n = format_i64(max_graphemes);
    r.append(n.as_str());
    r.append(PROMPT_MIDDLE);
    r.append(description);
    r.append(PROMPT_TAIL);
    r
}

/// Tally of a run's processed items.
#[derive(Clone, Copy, Debug, PartialEq, Eq)]
pub struct ErrorReport {
    pub has_errors: bool,
    pub error_count: usize,
    pub total_items: usize,
}

/// Number of items that carry an error.
pub open spec fn count_errors(errors: Seq<Option<String>>) -> nat
    decreases errors.len(),
{
    if errors.len() == 0 {
        0
    } else {
        count_errors(errors.drop_last()) + if errors.last() is Some {
            1nat
        } else {
            0nat
        }
    }
}

/// Tallies the errors of a run's processed items (one entry per item, `Some`
/// when the item failed).
pub fn error_report(errors: &Vec<Option<String>>) -> (r: ErrorReport)
    ensures
        r.total_items == errors@.len(),
        r.error_count == count_errors(errors@),
        r.has_errors == (count_errors(errors@) > 0),
{
    let mut count: usize = 0;
    let mut i: usize = 0;
    while i < errors.len()
        invariant
            i <= errors@.len(),
            count == count_errors(errors@.take(i as int)),
            count <= i,
        decreases errors@.len() - i,
    {
        assert(errors@.take(i + 1).drop_last() =~= errors@.take(i as int));
        if errors[i].is_some() {
            count = count + 1;
        }
        i = i + 1;
    }
    assert(errors@.take(i as int) =~= errors@);
    ErrorReport { has_errors: count > 0, error_count: count, total_items: errors.len() }
}

} // verus!
