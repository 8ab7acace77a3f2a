//! Statistics periods and the count queries they select.

use vstd::prelude::*;

verus! {

/// Reporting period for ingestion statistics.
#[derive(Clone, Copy, PartialEq, Eq, Debug)]
pub enum StatsPeriod {
    AllTime,
    Today,
}

/// The query counting the RSS items of one source (bound as `$1`) in a period.
pub open spec fn rss_count_query_spec(period: StatsPeriod) -> Seq<char> {
    match period {
        StatsPeriod::AllTime => "SELECT COUNT(*)::bigint FROM warehouse.rss_items WHERE source = $1"@,
        StatsPeriod::Today => "SELECT COUNT(*)::bigint FROM warehouse.rss_items WHERE source = $1 AND published_at >= DATE_TRUNC('day', NOW())"@,
    }
}

/// The query counting Polymarket events in a period.
pub open spec fn polymarket_count_query_spec(period: StatsPeriod) -> Seq<char> {
    match period {
        StatsPeriod::AllTime => "SELECT COUNT(*)::bigint FROM warehouse.polymarket_events"@,
        StatsPeriod::Today => "SELECT COUNT(*)::bigint FROM warehouse.polymarket_events WHERE created_at >= DATE_TRUNC('day', NOW())"@,
    }
}

/// The query counting the RSS items of one source in `period`; all-time
/// counts every item, today counts those published since midnight.
pub fn rss_count_query(period: StatsPeriod) -> (q: &'static str)
    ensures
        q@ == rss_count_query_spec(period),
{
    match period {
        StatsPeriod::AllTime => "SELECT COUNT(*)::bigint FROM warehouse.rss_items WHERE source = $1",
        StatsPeriod::Today => "SELECT COUNT(*)::bigint FROM warehouse.rss_items WHERE source = $1 AND published_at >= DATE_TRUNC('day', NOW())",
    }
}

/// The query counting Polymarket events in `period`; all-time counts every
/// event, today counts those created since midnight.
pub fn polymarket_count_query(period: StatsPeriod) -> (q: &'static str)
    ensures
        q@ == polymarket_count_query_spec(period),
{
    match period {
        StatsPeriod::AllTime => "SELECT COUNT(*)::bigint FROM warehouse.polymarket_events",
        StatsPeriod::Today => "SELECT COUNT(*)::bigint FROM warehouse.polymarket_events WHERE created_at >= DATE_TRUNC('day', NOW())",
    }
}

/// The today count restricts the all-time count to rows since midnight: the
/// RSS query adds that condition to the source condition with `AND`, the
/// Polymarket query adds it as its only condition; and every count reads the
/// table of its own kind.
pub proof fn lemma_today_restricts_all_time()
    ensures
        rss_count_query_spec(StatsPeriod::Today) == rss_count_query_spec(StatsPeriod::AllTime)
            + " AND published_at >= DATE_TRUNC('day', NOW())"@,
        rss_count_query_spec(StatsPeriod::AllTime) == "SELECT COUNT(*)::bigint FROM warehouse.rss_items"@
            + " WHERE source = $1"@,
        polymarket_count_query_spec(StatsPeriod::Today) == polymarket_count_query_spec(
            StatsPeriod::AllTime,
        ) + " WHERE created_at >= DATE_TRUNC('day', NOW())"@,
        polymarket_count_query_spec(StatsPeriod::AllTime)
            == "SELECT COUNT(*)::bigint FROM warehouse.polymarket_events"@,
{
    reveal_strlit("SELECT COUNT(*)::bigint FROM warehouse.rss_items WHERE source = $1");
    reveal_strlit("SELECT COUNT(*)::bigint FROM warehouse.rss_items WHERE source = $1 AND published_at >= DATE_TRUNC('day', NOW())");
    reveal_strlit(" AND published_at >= DATE_TRUNC('day', NOW())");
    reveal_strlit("SELECT COUNT(*)::bigint FROM warehouse.rss_items");
    reveal_strlit(" WHERE source = $1");
    reveal_strlit("SELECT COUNT(*)::bigint FROM warehouse.polymarket_events");
    reveal_strlit("SELECT COUNT(*)::bigint FROM warehouse.polymarket_events WHERE created_at >= DATE_TRUNC('day', NOW())");
    reveal_strlit(" WHERE created_at >= DATE_TRUNC('day', NOW())");
    assert(rss_count_query_spec(StatsPeriod::Today) =~= rss_count_query_spec(StatsPeriod::AllTime)
        + " AND published_at >= DATE_TRUNC('day', NOW())"@);
    assert(rss_count_query_spec(StatsPeriod::AllTime) =~= "SELECT COUNT(*)::bigint FROM warehouse.rss_items"@
        + " WHERE source = $1"@);
    assert(polymarket_count_query_spec(StatsPeriod::Today) =~= polymarket_count_query_spec(
        StatsPeriod::AllTime,
    ) + " WHERE created_at >= DATE_TRUNC('day', NOW())"@);
}

} // verus!
