use rss_bluesky_bridge::config::{
    conditional_value, flag_enabled, positive_or_default, required_value, ConfigError, DEFAULT_MAX_AGE_HOURS,
    DEFAULT_SUMMARY_BUDGET,
};
use rss_bluesky_bridge::stages::{
    error_report, post_text, stage_feed_entries, stored_summary, summary_prompt, FeedEntry,
};

fn entry(guid: Option<&str>, pub_date: Option<&str>) -> FeedEntry {
    FeedEntry {
        guid: guid.map(String::from),
        title: Some("A title".to_string()),
        description: Some("Some description".to_string()),
        link: Some("https://example.com/post".to_string()),
        pub_date: pub_date.map(String::from),
    }
}

// 2024-01-01T12:00:00Z
const NOON: i64 = 1_704_110_400;

#[test]
fn recent_entries_with_guids_are_staged() {
    let entries = vec![
        entry(Some("fresh"), Some("Mon, 01 Jan 2024 10:30:00 +0000")),
        entry(Some("old"), Some("Fri, 29 Dec 2023 10:00:00 +0000")),
        entry(None, Some("Mon, 01 Jan 2024 11:00:00 +0000")),
        entry(Some("undated"), None),
        entry(Some("garbled"), Some("yesterday-ish")),
        entry(Some("offset"), Some("Mon, 01 Jan 2024 13:00:00 +0200")),
    ];
    let (items, ids) = stage_feed_entries("run-9", &entries, NOON, 24);
    let guids: Vec<&str> = items.iter().map(|i| i.guid.as_str()).collect();
    assert_eq!(guids, vec!["fresh", "offset"]);
    assert_eq!(ids.len(), 2);
    assert_eq!(ids[1].guid, "offset");
    assert_eq!(ids[1].execution_id, "run-9");
    let first = &items[0];
    assert_eq!(first.execution_id, "run-9");
    assert_eq!(first.ttl, Some(NOON + 86_400));
    assert_eq!(first.summary, None);
    assert_eq!(first._type, None);
    assert_eq!(first.title.as_deref(), Some("A title"));
    assert_eq!(first.pub_date.as_deref(), Some("Mon, 1 Jan 2024 10:30:00 +0000"));
    assert_eq!(items[1].pub_date.as_deref(), Some("Mon, 1 Jan 2024 13:00:00 +0200"));
}

#[test]
fn age_limit_counts_whole_hours() {
    let entries = vec![entry(Some("edge"), Some("Sun, 31 Dec 2023 11:00:01 +0000"))];
    // 24 hours 59 minutes 59 seconds old: 24 whole hours.
    assert_eq!(stage_feed_entries("r", &entries, NOON, 24).0.len(), 1);
    assert_eq!(stage_feed_entries("r", &entries, NOON, 23).0.len(), 0);
}

#[test]
fn post_prefers_a_real_summary() {
    assert_eq!(post_text(Some("Model summary".to_string()), "desc"), "Model summary");
    assert_eq!(post_text(Some("   ".to_string()), "  desc  "), "desc");
    assert_eq!(post_text(None, "desc"), "desc");
    let long = "word ".repeat(100);
    let text = post_text(None, &long);
    assert!(text.chars().count() <= 300);
    assert!(text.ends_with("word…"));
}

#[test]
fn stored_summary_falls_back_to_description() {
    assert_eq!(stored_summary(Some(" model text ".to_string()), "desc"), "model text");
    assert_eq!(stored_summary(None, "desc"), "desc");
    let long = "x".repeat(400);
    let s = stored_summary(None, &long);
    assert_eq!(s.chars().count(), 290);
    assert!(s.ends_with('…'));
}

#[test]
fn prompt_names_budget_and_text() {
    assert_eq!(
        summary_prompt(280, "<p>Body</p>"),
        "\n\nHuman: Remove all html tags and summarize the following text in 280 graphemes or less:\n\n<p>Body</p>\n\nAssistant:"
    );
}

#[test]
fn errors_are_tallied() {
    let report = error_report(&vec![None, Some("boom".to_string()), None, Some(String::new())]);
    assert!(report.has_errors);
    assert_eq!(report.error_count, 2);
    assert_eq!(report.total_items, 4);
    let clean = error_report(&Vec::new());
    assert!(!clean.has_errors);
    assert_eq!(clean.error_count, 0);
    assert_eq!(clean.total_items, 0);
}

#[test]
fn required_settings_must_hold_text() {
    assert_eq!(required_value("TABLE", Some("items".to_string())).unwrap(), "items");
    assert!(matches!(required_value("TABLE", None), Err(ConfigError::Missing { name }) if name == "TABLE"));
    assert!(matches!(required_value("TABLE", Some(" ".to_string())), Err(ConfigError::Blank { .. })));
}

#[test]
fn numeric_settings_fall_back_when_not_positive() {
    assert_eq!(positive_or_default("MAX_AGE_HOURS", Some("12".to_string()), DEFAULT_MAX_AGE_HOURS).unwrap(), 12);
    assert_eq!(positive_or_default("MAX_AGE_HOURS", Some("0".to_string()), DEFAULT_MAX_AGE_HOURS).unwrap(), 48);
    assert_eq!(positive_or_default("BUDGET", Some("-3".to_string()), DEFAULT_SUMMARY_BUDGET).unwrap(), 280);
    assert!(matches!(
        positive_or_default("BUDGET", Some("ten".to_string()), DEFAULT_SUMMARY_BUDGET),
        Err(ConfigError::NotANumber { .. })
    ));
    assert!(matches!(positive_or_default("BUDGET", None, 1), Err(ConfigError::Missing { .. })));
}

#[test]
fn switch_reads_true_in_any_case() {
    assert!(flag_enabled(&Some("true".to_string())));
    assert!(flag_enabled(&Some("TrUe".to_string())));
    assert!(!flag_enabled(&Some("yes".to_string())));
    assert!(!flag_enabled(&Some("true ".to_string())));
    assert!(!flag_enabled(&None));
}

#[test]
fn model_setting_must_hold_text_only_when_used() {
    assert_eq!(conditional_value("AI_MODEL_ID", Some(" ".to_string()), false).unwrap(), " ");
    assert!(matches!(conditional_value("AI_MODEL_ID", Some(" ".to_string()), true), Err(ConfigError::Blank { .. })));
    assert!(matches!(conditional_value("AI_MODEL_ID", None, false), Err(ConfigError::Missing { .. })));
    assert_eq!(conditional_value("AI_MODEL_ID", Some("m".to_string()), true).unwrap(), "m");
}
