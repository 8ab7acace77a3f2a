use raven_news::time::Timestamp;
use raven_news::polymarket::sync::{
    build_query, delay_to_next_sync_ms, max_page_count_from, page_limit_from,
    request_delay_ms_from, retry_wait_ms, EventStatusQuery, PageStep, RateLimitRetry,
    ResponseAction, SyncMode, SyncProgress,
};

fn pairs(q: Vec<(&'static str, String)>) -> Vec<(String, String)> {
    q.into_iter().map(|(k, v)| (k.to_string(), v)).collect()
}

fn owned(v: &[(&str, &str)]) -> Vec<(String, String)> {
    v.iter().map(|(k, v)| (k.to_string(), v.to_string())).collect()
}

#[test]
fn query_parameters_per_status() {
    assert_eq!(
        pairs(build_query(EventStatusQuery::ActiveOpen, 200, 100)),
        owned(&[("limit", "100"), ("offset", "200"), ("active", "true"), ("closed", "false")])
    );
    assert_eq!(
        pairs(build_query(EventStatusQuery::Open, 0, 7)),
        owned(&[("limit", "7"), ("offset", "0"), ("closed", "false")])
    );
}

#[test]
fn modes_query_their_statuses() {
    assert_eq!(SyncMode::Incremental.statuses(), vec![EventStatusQuery::ActiveOpen]);
    assert_eq!(SyncMode::Backfill.statuses(), vec![EventStatusQuery::Open]);
}

#[test]
fn fetch_pressure_settings() {
    assert_eq!(max_page_count_from(None), 100);
    assert_eq!(max_page_count_from(Some("5")), 5);
    assert_eq!(max_page_count_from(Some("+5")), 5);
    assert_eq!(max_page_count_from(Some("0")), 100);
    assert_eq!(max_page_count_from(Some(" 5")), 100);
    assert_eq!(max_page_count_from(Some("-1")), 100);
    assert_eq!(max_page_count_from(Some("99999999999999999999999")), 100);
    assert_eq!(page_limit_from(Some("50")), 50);
    assert_eq!(page_limit_from(Some("101")), 100);
    assert_eq!(page_limit_from(Some("abc")), 100);
    assert_eq!(request_delay_ms_from(Some("1000")), 1000);
    assert_eq!(request_delay_ms_from(Some("0")), 250);
    assert_eq!(request_delay_ms_from(None), 250);
    assert_eq!(request_delay_ms_from(Some("18446744073709551615")), u64::MAX);
    assert_eq!(request_delay_ms_from(Some("18446744073709551616")), 250);
}

#[test]
fn backoff_doubles_from_one_second() {
    assert_eq!(retry_wait_ms(0), 1000);
    assert_eq!(retry_wait_ms(1), 1000);
    assert_eq!(retry_wait_ms(2), 2000);
    assert_eq!(retry_wait_ms(5), 16000);
    for a in 1..=54usize {
        assert_eq!(retry_wait_ms(a + 1), 2 * retry_wait_ms(a));
    }
    assert_eq!(retry_wait_ms(55), 1000 * (1u64 << 54));
    assert_eq!(retry_wait_ms(56), u64::MAX);
    assert_eq!(retry_wait_ms(66), u64::MAX);
}

#[test]
fn rate_limiting_gives_up_after_five_retries() {
    let mut retry = RateLimitRetry::new();
    assert_eq!(retry.on_status(429), ResponseAction::RetryAfterMs(1000));
    assert_eq!(retry.on_status(429), ResponseAction::RetryAfterMs(2000));
    assert_eq!(retry.on_status(429), ResponseAction::RetryAfterMs(4000));
    assert_eq!(retry.on_status(429), ResponseAction::RetryAfterMs(8000));
    assert_eq!(retry.on_status(429), ResponseAction::RetryAfterMs(16000));
    assert_eq!(retry.on_status(429), ResponseAction::GiveUp);
    assert_eq!(retry.attempts, 6);

    let mut retry = RateLimitRetry::new();
    assert_eq!(retry.on_status(200), ResponseAction::Accept);
    assert_eq!(retry.on_status(204), ResponseAction::Accept);
    assert_eq!(retry.on_status(500), ResponseAction::Fail);
    assert_eq!(retry.on_status(404), ResponseAction::Fail);
    assert_eq!(retry.on_status(302), ResponseAction::Fail);
    assert_eq!(retry.attempts, 0);
}

#[test]
fn paging_stops_on_short_or_empty_pages() {
    let mut p = SyncProgress::new(3, 10);
    p.start_status();
    assert_eq!(p.next_offset(), Some(0));
    assert_eq!(p.record_page(10), PageStep::More);
    for _ in 0..10 {
        p.record_event(true);
    }
    assert_eq!(p.next_offset(), Some(10));
    assert_eq!(p.record_page(4), PageStep::Last);
    p.record_event(false);
    p.record_event(true);
    p.record_event(true);
    p.record_event(true);
    assert_eq!(p.next_offset(), None);
    let stats = p.stats();
    assert_eq!(stats.events_fetched, 14);
    assert_eq!(stats.events_upserted, 13);

    p.start_status();
    assert_eq!(p.next_offset(), Some(0));
    assert_eq!(p.record_page(0), PageStep::Empty);
    assert_eq!(p.next_offset(), None);
}

#[test]
fn paging_stops_after_the_page_budget() {
    let mut p = SyncProgress::new(2, 5);
    p.start_status();
    let mut offsets = Vec::new();
    while let Some(offset) = p.next_offset() {
        offsets.push(offset);
        assert_eq!(p.record_page(5), PageStep::More);
        for _ in 0..5 {
            p.record_event(true);
        }
    }
    assert_eq!(offsets, vec![0, 5]);
    assert_eq!(p.stats().events_fetched, 10);
}

#[test]
fn scheduled_syncs_start_at_once_then_run_on_the_half_hour() {
    let t = |secs: i64, nanos: u32| Timestamp { secs, nanos };
    assert_eq!(delay_to_next_sync_ms(true, t(1_700_000_123, 5)), 0);
    assert_eq!(delay_to_next_sync_ms(false, t(1800 * 1000, 0)), 1_800_000);
    assert_eq!(delay_to_next_sync_ms(false, t(1800 * 1000 + 1, 500_000_000)), 1_798_500);
    assert_eq!(delay_to_next_sync_ms(false, t(1800 * 1000 - 1, 999_999_999)), 1);
    assert_eq!(delay_to_next_sync_ms(false, t(-1, 0)), 1000);
    let now = t(1_700_000_123, 250_000_000);
    let d = delay_to_next_sync_ms(false, now) as i64;
    assert_eq!((now.secs * 1000 + 250 + d) % 1_800_000, 0);
}

#[test]
fn modes_share_paging_and_differ_in_filter() {
    let inc = SyncMode::Incremental.statuses();
    let back = SyncMode::Backfill.statuses();
    assert_eq!(inc.len(), 1);
    assert_eq!(back.len(), 1);
    let mut q = pairs(build_query(back[0], 200, 50));
    q.insert(2, ("active".to_string(), "true".to_string()));
    assert_eq!(pairs(build_query(inc[0], 200, 50)), q);
}

#[test]
fn unbounded_page_budget_pages_until_a_short_page() {
    let mut p = SyncProgress::new(usize::MAX, 100);
    p.start_status();
    assert_eq!(p.next_offset(), Some(0));
    assert_eq!(p.record_page(100), PageStep::More);
    for _ in 0..100 {
        p.record_event(false);
    }
    assert_eq!(p.next_offset(), Some(100));
    assert_eq!(p.record_page(7), PageStep::Last);
    for _ in 0..7 {
        p.record_event(true);
    }
    assert_eq!(p.next_offset(), None);
    let stats = p.stats();
    assert_eq!(stats.events_fetched, 107);
    assert_eq!(stats.events_upserted, 7);
}
