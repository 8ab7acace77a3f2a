//! The decisions of the command-line interface: command labels, what each
//! menu choice selects, the statistics sources offered, and the settings it
//! reads from the environment.

use crate::db::stats::StatsPeriod;
use crate::text::{parse_i64, parse_i64_spec, str_equal, string_views};
use vstd::prelude::*;
use vstd::string::StringExecFns;

verus! {

/// The subcommands.
#[derive(Clone, Copy, PartialEq, Eq, Debug)]
pub enum Commands {
    /// Fetch once and store.
    FetchOnce,
    /// Keep ingesting on a schedule.
    Run,
    /// Backfill open Polymarket events.
    Backfill,
    /// Show ingestion statistics.
    Stats,
}

/// The name a command is invoked by.
pub open spec fn command_label_spec(c: Commands) -> Seq<char> {
    match c {
        Commands::FetchOnce => "fetch-once"@,
        Commands::Run => "run"@,
        Commands::Backfill => "backfill"@,
        Commands::Stats => "stats"@,
    }
}

impl Commands {
    /// The name the command is invoked by.
    pub fn label(self) -> (l: &'static str)
        ensures
            l@ == command_label_spec(self),
    {
        match self {
            Commands::FetchOnce => "fetch-once",
            Commands::Run => "run",
            Commands::Backfill => "backfill",
            Commands::Stats => "stats",
        }
    }
}

/// The commands offered when none is given, in menu order.
pub open spec fn command_menu_spec() -> Seq<Commands> {
    seq![Commands::FetchOnce, Commands::Run, Commands::Backfill, Commands::Stats]
}

/// The commands offered when none is given, in menu order.
pub fn command_menu() -> (r: Vec<Commands>)
    ensures
        r@ == command_menu_spec(),
{
    let r = vec![Commands::FetchOnce, Commands::Run, Commands::Backfill, Commands::Stats];
    assert(r@ =~= command_menu_spec());
    r
}

/// What `fetch-once` and `run` work on.
#[derive(Clone, Copy, PartialEq, Eq, Debug)]
pub enum IngestionTarget {
    Polymarket,
    NewsItems,
}

/// The target chosen at position `index` of the menu
/// `["polymarket", "news items"]`; none for any other position.
pub fn target_from_selection(index: usize) -> (t: Option<IngestionTarget>)
    ensures
        t == if index == 0 {
            Some(IngestionTarget::Polymarket)
        } else if index == 1 {
            Some(IngestionTarget::NewsItems)
        } else {
            None::<IngestionTarget>
        },
{
    if index == 0 {
        Some(IngestionTarget::Polymarket)
    } else if index == 1 {
        Some(IngestionTarget::NewsItems)
    } else {
        None
    }
}

/// The period chosen at position `index` of the menu `["all-time", "today"]`;
/// none for any other position.
pub fn period_from_selection(index: usize) -> (p: Option<StatsPeriod>)
    ensures
        p == if index == 0 {
            Some(StatsPeriod::AllTime)
        } else if index == 1 {
            Some(StatsPeriod::Today)
        } else {
            None::<StatsPeriod>
        },
{
    if index == 0 {
        Some(StatsPeriod::AllTime)
    } else if index == 1 {
        Some(StatsPeriod::Today)
    } else {
        None
    }
}

/// How a period is shown.
pub open spec fn period_label_spec(period: StatsPeriod) -> Seq<char> {
    match period {
        StatsPeriod::AllTime => "all-time"@,
        StatsPeriod::Today => "today"@,
    }
}

/// How a period is shown.
pub fn period_label(period: StatsPeriod) -> (l: &'static str)
    ensures
        l@ == period_label_spec(period),
{
    match period {
        StatsPeriod::AllTime => "all-time",
        StatsPeriod::Today => "today",
    }
}

/// The kinds of Polymarket statistics.
#[derive(Clone, Copy, PartialEq, Eq, Debug)]
pub enum PolymarketStatsMode {
    EventCount,
    VolumeSpikes,
}

/// The mode chosen at position `index` of the menu
/// `["event-count", "volume-spikes"]`; none for any other position.
pub fn stats_mode_from_selection(index: usize) -> (m: Option<PolymarketStatsMode>)
    ensures
        m == if index == 0 {
            Some(PolymarketStatsMode::EventCount)
        } else if index == 1 {
            Some(PolymarketStatsMode::VolumeSpikes)
        } else {
            None::<PolymarketStatsMode>
        },
{
    if index == 0 {
        Some(PolymarketStatsMode::EventCount)
    } else if index == 1 {
        Some(PolymarketStatsMode::VolumeSpikes)
    } else {
        None
    }
}

/// The source statistics are shown for.
#[derive(Clone, PartialEq, Eq, Debug)]
pub enum StatsSource {
    Polymarket,
    Rss(String),
}

/// The name under which Polymarket is offered among the sources.
pub open spec fn polymarket_source_name() -> Seq<char> {
    "polymarket"@
}

/// The names of `sources` other than Polymarket's, in order.
pub open spec fn without_polymarket(sources: Seq<Seq<char>>) -> Seq<Seq<char>>
    decreases sources.len(),
{
    if sources.len() == 0 {
        Seq::empty()
    } else {
        let rest = without_polymarket(sources.drop_last());
        if sources.last() == polymarket_source_name() {
            rest
        } else {
            rest.push(sources.last())
        }
    }
}

/// The sources offered for statistics: Polymarket first, then the RSS
/// sources found in the database, except one named like Polymarket.
pub fn stats_source_options(db_sources: Vec<String>) -> (r: Vec<String>)
    ensures
        string_views(r@) == seq![polymarket_source_name()] + without_polymarket(
            string_views(db_sources@),
        ),
{
    let ghost views = string_views(db_sources@);
    let mut sources: Vec<String> = vec![String::from_str("polymarket")];
    let mut i: usize = 0;
    while i < db_sources.len()
        invariant
            views == string_views(db_sources@),
            i <= db_sources@.len(),
            string_views(sources@) == seq![polymarket_source_name()] + without_polymarket(
                views.take(i as int),
            ),
        decreases db_sources@.len() - i,
    {
        assert(views.take(i + 1).drop_last() =~= views.take(i as int));
        assert(views.take(i + 1).last() == db_sources@[i as int]@);
        let ghost before = string_views(sources@);
        if !str_equal(db_sources[i].as_str(), "polymarket") {
            sources.push(db_sources[i].clone());
            assert(string_views(sources@) =~= before.push(db_sources@[i as int]@));
        }
        i = i + 1;
    }
    assert(views.take(db_sources@.len() as int) =~= views);
    sources
}

/// The statistics source a chosen name stands for.
pub fn stats_source_for(selected: String) -> (s: StatsSource)
    ensures
        match s {
            StatsSource::Polymarket => selected@ == polymarket_source_name(),
            StatsSource::Rss(name) => selected@ != polymarket_source_name() && name@
                == selected@,
        },
{
    if str_equal(selected.as_str(), "polymarket") {
        StatsSource::Polymarket
    } else {
        StatsSource::Rss(selected)
    }
}

/// The number of volume spikes listed when no setting is given.
pub const DEFAULT_SPIKE_LIMIT: i64 = 20;

/// `POLYMARKET_SPIKE_LIMIT`: a positive number, else 20.
pub open spec fn spike_limit_spec(raw: Option<Seq<char>>) -> i64 {
    match raw {
        Some(r) => match parse_i64_spec(r) {
            Some(v) => if v > 0 {
                v
            } else {
                DEFAULT_SPIKE_LIMIT
            },
            None => DEFAULT_SPIKE_LIMIT,
        },
        None => DEFAULT_SPIKE_LIMIT,
    }
}

/// The number of volume spikes to list, from the value of
/// `POLYMARKET_SPIKE_LIMIT`.
pub fn spike_limit_from(raw: Option<&str>) -> (n: i64)
    ensures
        n == spike_limit_spec(
            match raw {
                Some(r) => Some(r@),
                None => None,
            },
        ),
        n > 0,
{
    match raw {
        Some(r) => match parse_i64(r) {
            Some(v) => if v > 0 {
                v
            } else {
                DEFAULT_SPIKE_LIMIT
            },
            None => DEFAULT_SPIKE_LIMIT,
        },
        None => DEFAULT_SPIKE_LIMIT,
    }
}

/// The names at the chosen positions of a list of sources, in the order
/// chosen.
pub fn selected_source_names(sources: &Vec<&'static str>, indices: &Vec<usize>) -> (r: Vec<
    String,
>)
    requires
        forall|k: int| 0 <= k < indices@.len() ==> #[trigger] indices@[k] < sources@.len(),
    ensures
        r@.len() == indices@.len(),
        forall|k: int| 0 <= k < indices@.len() ==> #[trigger] r@[k]@ == sources@[indices@[k] as int]@,
{
    let mut r: Vec<String> = Vec::new();
    let mut i: usize = 0;
    while i < indices.len()
        invariant
            forall|k: int| 0 <= k < indices@.len() ==> #[trigger] indices@[k] < sources@.len(),
            i <= indices@.len(),
            r@.len() == i,
            forall|k: int| 0 <= k < i ==> #[trigger] r@[k]@ == sources@[indices@[k] as int]@,
        decreases indices@.len() - i,
    {
        let idx = indices[i];
        r.push(sources[idx].to_owned());
        i = i + 1;
    }
    r
}

/// The sources offered besides Polymarket are exactly the database's
/// sources other than one named `polymarket`, in their order.
pub proof fn lemma_stats_sources(sources: Seq<Seq<char>>)
    ensures
        forall|k: int|
            0 <= k < without_polymarket(sources).len() ==> #[trigger] without_polymarket(
                sources,
            )[k] != "polymarket"@ && sources.contains(without_polymarket(sources)[k]),
        forall|x: Seq<char>|
            #[trigger] sources.contains(x) && x != "polymarket"@ ==> without_polymarket(
                sources,
            ).contains(x),
    decreases sources.len(),
{
    if sources.len() > 0 {
        let prefix = sources.drop_last();
        lemma_stats_sources(prefix);
        let r = without_polymarket(prefix);
        let w = without_polymarket(sources);
        assert forall|k: int| 0 <= k < w.len() implies #[trigger] w[k] != "polymarket"@
            && sources.contains(w[k]) by {
            if k < r.len() {
                assert(w[k] == r[k]);
                let i = choose|i: int| 0 <= i < prefix.len() && prefix[i] == r[k];
                assert(sources[i] == r[k]);
            } else {
                assert(w[k] == sources.last());
                assert(sources[sources.len() - 1] == sources.last());
            }
        }
        assert forall|x: Seq<char>| #[trigger] sources.contains(x) && x != "polymarket"@ implies w.contains(
            x,
        ) by {
            let i = choose|i: int| 0 <= i < sources.len() && sources[i] == x;
            if i < prefix.len() {
                assert(prefix[i] == x);
                assert(prefix.contains(x));
                let k = choose|k: int| 0 <= k < r.len() && r[k] == x;
                assert(w[k] == x);
            } else {
                assert(w[w.len() - 1] == x);
            }
        }
    }
}

/// Without a usable `POLYMARKET_SPIKE_LIMIT` twenty spikes are listed; a
/// positive number is taken as given.
pub proof fn lemma_spike_limit_setting(raw: Seq<char>, v: i64)
    ensures
        spike_limit_spec(None) == 20,
        parse_i64_spec(raw) == Some(v) && v > 0 ==> spike_limit_spec(Some(raw)) == v,
        parse_i64_spec(raw) == Some(v) && v <= 0 ==> spike_limit_spec(Some(raw)) == 20,
        parse_i64_spec(raw) is None ==> spike_limit_spec(Some(raw)) == 20,
{
}

} // verus!
