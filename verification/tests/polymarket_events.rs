use raven_news::polymarket::events::{
    collect_tags, extract_event_info, extract_event_info_at, extract_event_tags, join_tag_values,
    normalize_tag_value, push_unique, read_datetime, read_string,
};
use raven_news::polymarket::json::{events_from_response, JsonNumber, JsonValue};
use raven_news::time::{Timestamp, MAX_EPOCH_SECS, MIN_EPOCH_SECS};

fn s(v: &str) -> JsonValue {
    JsonValue::String(v.to_string())
}

fn obj(entries: Vec<(&str, JsonValue)>) -> JsonValue {
    JsonValue::Object(entries.into_iter().map(|(k, v)| (k.to_string(), v)).collect())
}

fn tag(slug: Option<&str>, label: Option<&str>) -> JsonValue {
    let mut entries = Vec::new();
    if let Some(v) = slug {
        entries.push(("slug", s(v)));
    }
    if let Some(v) = label {
        entries.push(("label", s(v)));
    }
    obj(entries)
}

fn ts(secs: i64) -> Timestamp {
    Timestamp { secs, nanos: 0 }
}

#[test]
fn events_from_array_or_events_member() {
    let array = JsonValue::Array(vec![s("a"), s("b")]);
    assert_eq!(events_from_response(array), vec![s("a"), s("b")]);
    let wrapped = obj(vec![("count", JsonValue::Number(JsonNumber::PosInt(1))), ("events", JsonValue::Array(vec![s("c")]))]);
    assert_eq!(events_from_response(wrapped), vec![s("c")]);
    let not_array = obj(vec![("events", s("nope"))]);
    assert_eq!(events_from_response(not_array), Vec::<JsonValue>::new());
    assert_eq!(events_from_response(JsonValue::Null), Vec::<JsonValue>::new());
}

#[test]
fn read_string_takes_first_usable_key() {
    let event = obj(vec![
        ("id", JsonValue::Bool(true)),
        ("eventId", JsonValue::Number(JsonNumber::PosInt(18446744073709551615))),
        ("event_id", s("x")),
    ]);
    assert_eq!(read_string(&event, &["id", "eventId", "event_id"]), Some("18446744073709551615".to_string()));
    assert_eq!(read_string(&event, &["id", "event_id"]), Some("x".to_string()));
    assert_eq!(read_string(&event, &["missing"]), None);
    let neg = obj(vec![("n", JsonValue::Number(JsonNumber::NegInt(i64::MIN)))]);
    assert_eq!(read_string(&neg, &["n"]), Some("-9223372036854775808".to_string()));
    let float = obj(vec![("f", JsonValue::Number(JsonNumber::Float("1.5".to_string())))]);
    assert_eq!(read_string(&float, &["f"]), Some("1.5".to_string()));
    assert_eq!(read_string(&s("top"), &["id"]), None);
}

#[test]
fn read_datetime_accepts_rfc3339_and_epoch() {
    let event = obj(vec![
        ("bad", s("soon")),
        ("endDate", s("2024-05-01T12:00:00.5Z")),
        ("epoch", JsonValue::Number(JsonNumber::PosInt(1700000000))),
        ("neg", JsonValue::Number(JsonNumber::NegInt(-86400))),
    ]);
    assert_eq!(read_datetime(&event, &["bad", "endDate"]), Some(Timestamp { secs: 1714564800, nanos: 500_000_000 }));
    assert_eq!(read_datetime(&event, &["epoch"]), Some(ts(1700000000)));
    assert_eq!(read_datetime(&event, &["neg"]), Some(ts(-86400)));
    assert_eq!(read_datetime(&event, &["bad"]), None);
}

#[test]
fn epoch_range_matches_chrono() {
    let at = |n: i64| obj(vec![("t", JsonValue::Number(JsonNumber::NegInt(n)))]);
    let at_pos = |n: u64| obj(vec![("t", JsonValue::Number(JsonNumber::PosInt(n)))]);
    assert_eq!(read_datetime(&at(MIN_EPOCH_SECS), &["t"]), Some(ts(MIN_EPOCH_SECS)));
    assert_eq!(read_datetime(&at(MIN_EPOCH_SECS - 1), &["t"]), None);
    assert_eq!(read_datetime(&at_pos(MAX_EPOCH_SECS as u64), &["t"]), Some(ts(MAX_EPOCH_SECS)));
    assert_eq!(read_datetime(&at_pos(MAX_EPOCH_SECS as u64 + 1), &["t"]), None);
}

#[test]
fn tag_values_are_trimmed_and_lowercased() {
    assert_eq!(normalize_tag_value("  Crypto \n"), "crypto");
    assert_eq!(normalize_tag_value("ÉLECTIONS"), "élections");
    assert_eq!(normalize_tag_value("   "), "");
}

#[test]
fn push_unique_and_join() {
    let mut values = vec!["a".to_string()];
    push_unique(&mut values, "a".to_string());
    push_unique(&mut values, "b".to_string());
    assert_eq!(values, vec!["a".to_string(), "b".to_string()]);
    assert_eq!(join_tag_values(values), Some("a, b".to_string()));
    assert_eq!(join_tag_values(vec![]), None);
}

#[test]
fn tags_are_deduplicated_in_order() {
    let event = obj(vec![(
        "tags",
        JsonValue::Array(vec![
            tag(Some(" Politics "), Some("Politics")),
            tag(Some("elections"), None),
            tag(Some("  "), Some("US Elections")),
            tag(None, Some("politics")),
            s("not a tag"),
        ]),
    )]);
    let (slugs, tags, labels) = extract_event_tags(&event);
    assert_eq!(slugs.as_deref(), Some("politics, elections"));
    assert_eq!(tags.as_deref(), Some("politics, elections, us elections"));
    assert_eq!(labels.as_deref(), Some("politics, us elections"));
    assert_eq!(extract_event_tags(&obj(vec![])), (None, None, None));
}

#[test]
fn collect_tags_skips_empty_values() {
    let pairs = vec![
        (Some("".to_string()), Some("x".to_string())),
        (Some("y".to_string()), Some("x".to_string())),
    ];
    assert_eq!(
        collect_tags(&pairs),
        (Some("y".to_string()), Some("x, y".to_string()), Some("x".to_string()))
    );
}

#[test]
fn event_info_reads_every_field() {
    let event = obj(vec![
        ("eventId", JsonValue::Number(JsonNumber::PosInt(42))),
        ("name", s("Who wins?")),
        ("tags", JsonValue::Array(vec![tag(Some("Sports"), Some("Sports"))])),
        ("end_date", s("2025-01-01T00:00:00Z")),
        ("active", JsonValue::Bool(false)),
        ("closed", s("true")),
        ("creationDate", JsonValue::Number(JsonNumber::PosInt(1000))),
    ]);
    let info = extract_event_info_at(&event, ts(77));
    assert_eq!(info.event_id, "42");
    assert_eq!(info.title.as_deref(), Some("Who wins?"));
    assert_eq!(info.tag_slugs.as_deref(), Some("sports"));
    assert_eq!(info.tags.as_deref(), Some("sports"));
    assert_eq!(info.tag_labels.as_deref(), Some("sports"));
    assert_eq!(info.end_date, Some(ts(1735689600)));
    assert!(!info.active);
    assert!(!info.closed);
    assert_eq!(info.created_at, ts(1000));
    assert_eq!(info.updated_at, ts(77));
    assert!(info.has_id());
}

#[test]
fn event_without_id_is_skipped() {
    let info = extract_event_info(&obj(vec![("title", s("x"))]));
    assert_eq!(info.event_id, "");
    assert!(!info.has_id());
    assert!(info.active);
    assert!(!info.closed);
    assert!(info.created_at.secs > 1_600_000_000);
}

#[test]
fn duplicate_keys_keep_the_last_entry() {
    let event = obj(vec![("id", s("first")), ("title", s("T")), ("id", s("last"))]);
    assert_eq!(event.get("id"), Some(&s("last")));
    assert_eq!(read_string(&event, &["id"]), Some("last".to_string()));
    let wrapped = obj(vec![("events", JsonValue::Array(vec![s("a")])), ("events", JsonValue::Array(vec![s("b")]))]);
    assert_eq!(events_from_response(wrapped), vec![s("b")]);
}

#[test]
fn tag_normalisation_example() {
    assert_eq!(normalize_tag_value("  US Election "), "us election");
}
