use raven_news::cli::{
    command_menu, period_from_selection, period_label, selected_source_names, spike_limit_from,
    stats_mode_from_selection, stats_source_for, stats_source_options, target_from_selection,
    Commands, IngestionTarget, PolymarketStatsMode, StatsSource,
};
use raven_news::db::stats::{polymarket_count_query, rss_count_query, StatsPeriod};
use raven_news::ingest::{
    active_feeds, feed_failure, feeds, list_active_feed_names, resolve_selected_active_feeds,
    FeedParser, RssIngestionError,
};
use raven_news::rss::RssItem;

const NAMES: [&str; 10] = [
    "bloomberg_wealth",
    "bloomberg_economics",
    "bloomberg_markets",
    "coindesk",
    "politico_congress",
    "politico_economy",
    "politico_politics",
    "wsj_world",
    "wsj_politics",
    "wsj_markets",
];

#[test]
fn registry_lists_every_active_feed() {
    assert_eq!(list_active_feed_names(), NAMES.to_vec());
    let all = feeds();
    assert_eq!(all.len(), 10);
    assert_eq!(all[4].url, "https://rss.politico.com/congress.xml");
    assert_eq!(all[4].parser, FeedParser::Politico);
    assert_eq!(all[7].parser, FeedParser::Wsj);
    assert_eq!(active_feeds().len(), 10);
}

#[test]
fn selection_keeps_registry_order() {
    let selected = vec!["wsj_world".to_string(), "coindesk".to_string(), "unknown".to_string()];
    let feeds = resolve_selected_active_feeds(&selected).unwrap();
    let names: Vec<&str> = feeds.iter().map(|f| f.name).collect();
    assert_eq!(names, vec!["coindesk", "wsj_world"]);

    let everything: Vec<String> = NAMES.iter().map(|n| n.to_string()).collect();
    assert_eq!(resolve_selected_active_feeds(&everything).unwrap().len(), 10);
}

#[test]
fn empty_selection_is_an_error() {
    assert_eq!(
        resolve_selected_active_feeds(&["nothing".to_string()]).unwrap_err(),
        RssIngestionError::Other("No active RSS feeds selected".to_string())
    );
    assert!(resolve_selected_active_feeds(&[]).is_err());
}

#[test]
fn feed_failures_name_the_feed() {
    assert_eq!(
        feed_failure("wsj_world", "timeout"),
        RssIngestionError::Other("Feed 'wsj_world' failed: timeout".to_string())
    );
}

#[test]
fn inactive_feeds_store_nothing() {
    let mut feed = feeds()[0];
    let item = RssItem {
        source: "bloomberg".to_string(),
        title: "t".to_string(),
        link: "l".to_string(),
        summary: None,
        published_at: None,
    };
    assert_eq!(feed.items_to_insert(vec![item.clone()]), vec![item.clone()]);
    feed.active = false;
    assert_eq!(feed.items_to_insert(vec![item]), Vec::<RssItem>::new());
}

#[test]
fn command_labels() {
    let labels: Vec<&str> = command_menu().into_iter().map(|c| c.label()).collect();
    assert_eq!(labels, vec!["fetch-once", "run", "backfill", "stats"]);
    assert_eq!(Commands::Stats.label(), "stats");
}

#[test]
fn menu_choices() {
    assert_eq!(target_from_selection(0), Some(IngestionTarget::Polymarket));
    assert_eq!(target_from_selection(1), Some(IngestionTarget::NewsItems));
    assert_eq!(target_from_selection(2), None);
    assert_eq!(period_from_selection(0), Some(StatsPeriod::AllTime));
    assert_eq!(period_from_selection(1), Some(StatsPeriod::Today));
    assert_eq!(period_from_selection(5), None);
    assert_eq!(stats_mode_from_selection(1), Some(PolymarketStatsMode::VolumeSpikes));
    assert_eq!(stats_mode_from_selection(0), Some(PolymarketStatsMode::EventCount));
    assert_eq!(stats_mode_from_selection(3), None);
    assert_eq!(period_label(StatsPeriod::AllTime), "all-time");
    assert_eq!(period_label(StatsPeriod::Today), "today");
}

#[test]
fn stats_sources_start_with_polymarket() {
    let options = stats_source_options(vec!["politico".to_string(), "polymarket".to_string(), "wsj".to_string()]);
    assert_eq!(options, vec!["polymarket".to_string(), "politico".to_string(), "wsj".to_string()]);
    assert_eq!(stats_source_for("polymarket".to_string()), StatsSource::Polymarket);
    assert_eq!(stats_source_for("wsj".to_string()), StatsSource::Rss("wsj".to_string()));
}

#[test]
fn spike_limit_setting() {
    assert_eq!(spike_limit_from(None), 20);
    assert_eq!(spike_limit_from(Some("5")), 5);
    assert_eq!(spike_limit_from(Some("-5")), 20);
    assert_eq!(spike_limit_from(Some("0")), 20);
    assert_eq!(spike_limit_from(Some("9223372036854775807")), i64::MAX);
    assert_eq!(spike_limit_from(Some("9223372036854775808")), 20);
}

#[test]
fn chosen_sources_by_index() {
    let sources = vec!["a", "b", "c"];
    assert_eq!(selected_source_names(&sources, &vec![2, 0]), vec!["c".to_string(), "a".to_string()]);
}

#[test]
fn count_queries_per_period() {
    assert_eq!(rss_count_query(StatsPeriod::AllTime), "SELECT COUNT(*)::bigint FROM warehouse.rss_items WHERE source = $1");
    assert!(rss_count_query(StatsPeriod::Today).ends_with("published_at >= DATE_TRUNC('day', NOW())"));
    assert_eq!(polymarket_count_query(StatsPeriod::AllTime), "SELECT COUNT(*)::bigint FROM warehouse.polymarket_events");
    assert!(polymarket_count_query(StatsPeriod::Today).contains("created_at >= DATE_TRUNC('day', NOW())"));
}

#[test]
fn active_names_round_trip_through_selection() {
    let names: Vec<String> = list_active_feed_names().iter().map(|n| n.to_string()).collect();
    let all = resolve_selected_active_feeds(&names).unwrap();
    let back: Vec<&str> = all.iter().map(|f| f.name).collect();
    assert_eq!(back, list_active_feed_names());
    for name in list_active_feed_names() {
        let one = resolve_selected_active_feeds(&[name.to_string()]).unwrap();
        assert_eq!(one.len(), 1);
        assert_eq!(one[0].name, name);
    }
}

#[test]
fn only_politico_and_wsj_formats_are_parsed() {
    assert!(FeedParser::Politico.is_available());
    assert!(FeedParser::Wsj.is_available());
    assert!(!FeedParser::Bloomberg.is_available());
    assert!(!FeedParser::Coindesk.is_available());
}

#[test]
fn stored_items_are_keyed_by_source_and_link() {
    let item = RssItem::new("wsj", "T".to_string(), "https://w/a".to_string(), None, None);
    assert_eq!(item.id(), "wsj:https://w/a");
}
