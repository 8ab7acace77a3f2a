//! The registry of RSS feeds and the selection of the feeds to ingest.

use crate::rss::{has_prefix, RssItem};
use crate::text::{str_equal, string_views};
use vstd::prelude::*;
use vstd::string::StringExecFns;

verus! {

/// The parser a feed's XML goes through.
#[derive(Clone, Copy, PartialEq, Eq, Debug)]
pub enum FeedParser {
    Bloomberg,
    Coindesk,
    Politico,
    Wsj,
}

impl FeedParser {
    /// Whether this crate has a parser for the feed's format: Politico and
    /// WSJ feeds can be parsed; Bloomberg and CoinDesk feeds cannot.
    pub fn is_available(self) -> (b: bool)
        ensures
            b == (self is Politico || self is Wsj),
    {
        match self {
            FeedParser::Politico | FeedParser::Wsj => true,
            FeedParser::Bloomberg | FeedParser::Coindesk => false,
        }
    }
}

/// A registered feed.
#[derive(Clone, Copy, Debug)]
pub struct Feed {
    /// A unique operational label.
    pub name: &'static str,
    pub url: &'static str,
    pub parser: FeedParser,
    /// Whether the feed is ingested.
    pub active: bool,
}

/// A registry entry: name, URL, parser and whether it is active.
pub type FeedEntry = (Seq<char>, Seq<char>, FeedParser, bool);

/// What a feed says.
pub open spec fn feed_view(f: Feed) -> FeedEntry {
    (f.name@, f.url@, f.parser, f.active)
}

/// The views of a sequence of feeds.
pub open spec fn feed_views(feeds: Seq<Feed>) -> Seq<FeedEntry> {
    feeds.map_values(|f: Feed| feed_view(f))
}

/// The registry, in order.
pub open spec fn feed_table() -> Seq<FeedEntry> {
    seq![
        ("bloomberg_wealth"@, "https://feeds.bloomberg.com/wealth/news.rss"@, FeedParser::Bloomberg, true),
        ("bloomberg_economics"@, "https://feeds.bloomberg.com/economics/news.rss"@, FeedParser::Bloomberg, true),
        ("bloomberg_markets"@, "https://feeds.bloomberg.com/markets/news.rss"@, FeedParser::Bloomberg, true),
        ("coindesk"@, "https://www.coindesk.com/arc/outboundfeeds/rss"@, FeedParser::Coindesk, true),
        ("politico_congress"@, "https://rss.politico.com/congress.xml"@, FeedParser::Politico, true),
        ("politico_economy"@, "https://rss.politico.com/economy.xml"@, FeedParser::Politico, true),
        ("politico_politics"@, "https://rss.politico.com/politics-news.xml"@, FeedParser::Politico, true),
        ("wsj_world"@, "https://feeds.content.dowjones.io/public/rss/RSSWorldNews"@, FeedParser::Wsj, true),
        ("wsj_politics"@, "https://feeds.content.dowjones.io/public/rss/socialpoliticsfeed"@, FeedParser::Wsj, true),
        ("wsj_markets"@, "https://feeds.content.dowjones.io/public/rss/RSSMarketsMain"@, FeedParser::Wsj, true),
    ]
}

/// The registered feeds, in order.
pub fn feeds() -> (r: Vec<Feed>)
    ensures
        feed_views(r@) == feed_table(),
{
    let r = vec![
        Feed { name: "bloomberg_wealth", url: "https://feeds.bloomberg.com/wealth/news.rss", parser: FeedParser::Bloomberg, active: true },
        Feed { name: "bloomberg_economics", url: "https://feeds.bloomberg.com/economics/news.rss", parser: FeedParser::Bloomberg, active: true },
        Feed { name: "bloomberg_markets", url: "https://feeds.bloomberg.com/markets/news.rss", parser: FeedParser::Bloomberg, active: true },
        Feed { name: "coindesk", url: "https://www.coindesk.com/arc/outboundfeeds/rss", parser: FeedParser::Coindesk, active: true },
        Feed { name: "politico_congress", url: "https://rss.politico.com/congress.xml", parser: FeedParser::Politico, active: true },
        Feed { name: "politico_economy", url: "https://rss.politico.com/economy.xml", parser: FeedParser::Politico, active: true },
        Feed { name: "politico_politics", url: "https://rss.politico.com/politics-news.xml", parser: FeedParser::Politico, active: true },
        Feed { name: "wsj_world", url: "https://feeds.content.dowjones.io/public/rss/RSSWorldNews", parser: FeedParser::Wsj, active: true },
        Feed { name: "wsj_politics", url: "https://feeds.content.dowjones.io/public/rss/socialpoliticsfeed", parser: FeedParser::Wsj, active: true },
        Feed { name: "wsj_markets", url: "https://feeds.content.dowjones.io/public/rss/RSSMarketsMain", parser: FeedParser::Wsj, active: true },
    ];
    assert(feed_views(r@) =~= feed_table());
    r
}

/// The entries of `t` whose feed is active and, when `selected` is given,
/// whose name is among `selected`; in registry order.
pub open spec fn chosen(t: Seq<FeedEntry>, selected: Option<Seq<Seq<char>>>) -> Seq<FeedEntry>
    decreases t.len(),
{
    if t.len() == 0 {
        Seq::empty()
    } else {
        let rest = chosen(t.drop_last(), selected);
        let e = t.last();
        let keep = e.3 && match selected {
            Some(names) => names.contains(e.0),
            None => true,
        };
        if keep {
            rest.push(e)
        } else {
            rest
        }
    }
}

/// The active entries of the registry.
pub open spec fn active_table() -> Seq<FeedEntry> {
    chosen(feed_table(), None)
}

/// Whether `name` is one of `selected`.
fn is_selected(selected: &[String], name: &str) -> (b: bool)
    ensures
        b == string_views(selected@).contains(name@),
{
    let ghost views = string_views(selected@);
    let mut j: usize = 0;
    while j < selected.len()
        invariant
            views == string_views(selected@),
            j <= selected@.len(),
            forall|k: int| 0 <= k < j ==> views[k] != name@,
        decreases selected@.len() - j,
    {
        if str_equal(selected[j].as_str(), name) {
            assert(views[j as int] == name@);
            return true;
        }
        j = j + 1;
    }
    false
}

/// The feeds of the registry that are active and, when `selected` is given,
/// named in it.
fn choose_feeds(selected: Option<&[String]>) -> (r: Vec<Feed>)
    ensures
        feed_views(r@) == chosen(
            feed_table(),
            match selected {
                Some(s) => Some(string_views(s@)),
                None => None,
            },
        ),
{
    let ghost sel = match selected {
        Some(s) => Some(string_views(s@)),
        None => None::<Seq<Seq<char>>>,
    };
    let all = feeds();
    let ghost table = feed_table();
    let mut r: Vec<Feed> = Vec::new();
    let mut i: usize = 0;
    while i < all.len()
        invariant
            feed_views(all@) == table,
            table == feed_table(),
            i <= all@.len(),
            sel == match selected {
                Some(s) => Some(string_views(s@)),
                None => None::<Seq<Seq<char>>>,
            },
            feed_views(r@) == chosen(table.take(i as int), sel),
        decreases all@.len() - i,
    {
        let feed = all[i];
        assert(table.take(i + 1).drop_last() =~= table.take(i as int));
        assert(table.take(i + 1).last() == feed_view(feed));
        let keep = feed.active && match selected {
            Some(s) => is_selected(s, feed.name),
            None => true,
        };
        if keep {
            r.push(feed);
            assert(feed_views(r@) =~= chosen(table.take(i as int), sel).push(feed_view(feed)));
        }
        i = i + 1;
    }
    assert(table.take(all@.len() as int) =~= table);
    r
}

/// The active feeds, in registry order.
pub fn active_feeds() -> (r: Vec<Feed>)
    ensures
        feed_views(r@) == active_table(),
{
    choose_feeds(None)
}

/// The names of the active feeds, in registry order.
pub fn list_active_feed_names() -> (names: Vec<&'static str>)
    ensures
        names@.map_values(|s: &str| s@) == active_table().map_values(|e: FeedEntry| e.0),
{
    let feeds = active_feeds();
    let mut names: Vec<&'static str> = Vec::new();
    let mut i: usize = 0;
    while i < feeds.len()
        invariant
            feed_views(feeds@) == active_table(),
            i <= feeds@.len(),
            names@.map_values(|s: &str| s@) == feed_views(feeds@).take(i as int).map_values(
                |e: FeedEntry| e.0,
            ),
        decreases feeds@.len() - i,
    {
        let ghost before = names@.map_values(|s: &str| s@);
        assert(feed_views(feeds@)[i as int].0 == feeds@[i as int].name@);
        names.push(feeds[i].name);
        assert(names@.map_values(|s: &str| s@) =~= before.push(feeds@[i as int].name@));
        assert(feed_views(feeds@).take(i + 1).map_values(|e: FeedEntry| e.0) =~= feed_views(
            feeds@,
        ).take(i as int).map_values(|e: FeedEntry| e.0).push(feed_views(feeds@)[i as int].0));
        assert(names@.map_values(|s: &str| s@) =~= feed_views(feeds@).take(i + 1).map_values(
            |e: FeedEntry| e.0,
        ));
        i = i + 1;
    }
    assert(feed_views(feeds@).take(feeds@.len() as int) =~= feed_views(feeds@));
    names
}

/// Why RSS ingestion stopped.
#[derive(Clone, PartialEq, Eq, Debug)]
pub enum RssIngestionError {
    Other(String),
}

/// The message when no selected feed is active.
pub open spec fn no_feeds_message() -> Seq<char> {
    "No active RSS feeds selected"@
}

/// The active feeds named in `selected_feed_names`, in registry order.
pub open spec fn selected_table(selected: Seq<Seq<char>>) -> Seq<FeedEntry> {
    chosen(feed_table(), Some(selected))
}

/// The active feeds among those named; an error when there are none.
pub fn resolve_selected_active_feeds(selected_feed_names: &[String]) -> (r: Result<
    Vec<Feed>,
    RssIngestionError,
>)
    ensures
        match r {
            Ok(feeds) => feed_views(feeds@) == selected_table(string_views(selected_feed_names@))
                && feeds@.len() > 0,
            Err(RssIngestionError::Other(m)) => selected_table(
                string_views(selected_feed_names@),
            ).len() == 0 && m@ == no_feeds_message(),
        },
{
    let feeds = choose_feeds(Some(selected_feed_names));
    if feeds.len() == 0 {
        return Err(RssIngestionError::Other(String::from_str("No active RSS feeds selected")));
    }
    Ok(feeds)
}

/// The error for a feed whose fetch failed with `detail`.
pub fn feed_failure(name: &str, detail: &str) -> (e: RssIngestionError)
    ensures
        e matches RssIngestionError::Other(m) && m@ == "Feed '"@ + name@ + "' failed: "@ + detail@,
{
    let mut m = String::from_str("Feed '");
    m.append(name);
    m.append("' failed: ");
    m.append(detail);
    RssIngestionError::Other(m)
}

impl Feed {
    /// The parsed items to store: all of them for an active feed, none
    /// otherwise.
    pub fn items_to_insert(&self, items: Vec<RssItem>) -> (r: Vec<RssItem>)
        ensures
            r@ == if self.active {
                items@
            } else {
                Seq::<RssItem>::empty()
            },
    {
        if self.active {
            items
        } else {
            Vec::new()
        }
    }
}

proof fn lemma_chosen_all_selected(t: Seq<FeedEntry>, names: Seq<Seq<char>>)
    requires
        forall|k: int| 0 <= k < t.len() && (#[trigger] t[k]).3 ==> names.contains(t[k].0),
    ensures
        chosen(t, Some(names)) == chosen(t, None),
    decreases t.len(),
{
    if t.len() > 0 {
        let prefix = t.drop_last();
        assert forall|k: int| 0 <= k < prefix.len() && (#[trigger] prefix[k]).3 implies names.contains(
            prefix[k].0,
        ) by {
            assert(prefix[k] == t[k]);
        }
        lemma_chosen_all_selected(prefix, names);
        assert(t.last() == t[t.len() - 1]);
    }
}

proof fn lemma_chosen_members(t: Seq<FeedEntry>, names: Seq<Seq<char>>)
    ensures
        forall|k: int|
            0 <= k < chosen(t, Some(names)).len() ==> {
                let e = #[trigger] chosen(t, Some(names))[k];
                &&& e.3
                &&& names.contains(e.0)
                &&& t.contains(e)
            },
    decreases t.len(),
{
    if t.len() > 0 {
        let prefix = t.drop_last();
        lemma_chosen_members(prefix, names);
        let rest = chosen(prefix, Some(names));
        assert forall|k: int| 0 <= k < chosen(t, Some(names)).len() implies {
            let e = #[trigger] chosen(t, Some(names))[k];
            &&& e.3
            &&& names.contains(e.0)
            &&& t.contains(e)
        } by {
            let e = chosen(t, Some(names))[k];
            if k < rest.len() {
                assert(e == rest[k]);
                let j = choose|j: int| 0 <= j < prefix.len() && prefix[j] == e;
                assert(t[j] == e);
            } else {
                assert(e == t.last());
                assert(t[t.len() - 1] == e);
            }
        }
    }
}

proof fn lemma_chosen_every_active(t: Seq<FeedEntry>)
    requires
        forall|k: int| 0 <= k < t.len() ==> (#[trigger] t[k]).3,
    ensures
        chosen(t, None) == t,
    decreases t.len(),
{
    if t.len() > 0 {
        let prefix = t.drop_last();
        assert forall|k: int| 0 <= k < prefix.len() implies (#[trigger] prefix[k]).3 by {
            assert(prefix[k] == t[k]);
        }
        lemma_chosen_every_active(prefix);
        assert(t.last() == t[t.len() - 1]);
        assert(prefix.push(t.last()) =~= t);
    }
}

proof fn lemma_feed_table_all_active()
    ensures
        forall|k: int| 0 <= k < feed_table().len() ==> (#[trigger] feed_table()[k]).3,
{
    let t = feed_table();
    assert forall|k: int| 0 <= k < t.len() implies (#[trigger] t[k]).3 by {
        if k == 0 {
        } else if k == 1 {
        } else if k == 2 {
        } else if k == 3 {
        } else if k == 4 {
        } else if k == 5 {
        } else if k == 6 {
        } else if k == 7 {
        } else if k == 8 {
        } else {
        }
    }
}

/// Every registered feed is active.
pub proof fn lemma_every_feed_active()
    ensures
        active_table() == feed_table(),
{
    lemma_feed_table_all_active();
    lemma_chosen_every_active(feed_table());
}

/// Selecting feeds by name yields only active registered feeds whose name
/// was selected; selecting every active feed's name yields all active feeds.
pub proof fn lemma_selection_within_active(selected: Seq<Seq<char>>)
    ensures
        forall|k: int|
            0 <= k < selected_table(selected).len() ==> {
                let e = #[trigger] selected_table(selected)[k];
                &&& e.3
                &&& selected.contains(e.0)
                &&& feed_table().contains(e)
            },
        (forall|k: int| 0 <= k < active_table().len() ==> selected.contains(
            #[trigger] active_table()[k].0,
        )) ==> selected_table(selected) == active_table(),
{
    lemma_chosen_members(feed_table(), selected);
    let t = feed_table();
    if forall|k: int| 0 <= k < active_table().len() ==> selected.contains(
        #[trigger] active_table()[k].0,
    ) {
        assert forall|k: int| 0 <= k < t.len() && (#[trigger] t[k]).3 implies selected.contains(
            t[k].0,
        ) by {
            lemma_every_feed_active();
            assert(active_table()[k] == t[k]);
        }
        lemma_chosen_all_selected(t, selected);
    }
}

/// Feed names are unique operational labels: no two registered feeds share
/// a name.
pub proof fn lemma_feed_names_unique()
    ensures
        feed_table().map_values(|e: FeedEntry| e.0).no_duplicates(),
{
    reveal_strlit("bloomberg_wealth");
    reveal_strlit("bloomberg_economics");
    reveal_strlit("bloomberg_markets");
    reveal_strlit("coindesk");
    reveal_strlit("politico_congress");
    reveal_strlit("politico_economy");
    reveal_strlit("politico_politics");
    reveal_strlit("wsj_world");
    reveal_strlit("wsj_politics");
    reveal_strlit("wsj_markets");
    let names = feed_table().map_values(|e: FeedEntry| e.0);
    assert(names =~= seq!["bloomberg_wealth"@, "bloomberg_economics"@, "bloomberg_markets"@, "coindesk"@, "politico_congress"@, "politico_economy"@, "politico_politics"@, "wsj_world"@, "wsj_politics"@, "wsj_markets"@]);
    assert forall|i: int, j: int| 0 <= i < names.len() && 0 <= j < names.len() && i != j implies names[i] != names[j] by {
        if names[i] == names[j] {
            assert(names[i].len() == names[j].len());
            assert(names[i][0] == names[j][0]);
            assert(names[i][9] == names[j][9]);
        }
    }
}

proof fn lemma_chosen_no_match(t: Seq<FeedEntry>, names: Seq<Seq<char>>)
    requires
        forall|j: int| 0 <= j < t.len() ==> !names.contains((#[trigger] t[j]).0),
    ensures
        chosen(t, Some(names)) == Seq::<FeedEntry>::empty(),
    decreases t.len(),
{
    if t.len() > 0 {
        let prefix = t.drop_last();
        assert forall|j: int| 0 <= j < prefix.len() implies !names.contains(
            (#[trigger] prefix[j]).0,
        ) by {
            assert(prefix[j] == t[j]);
        }
        lemma_chosen_no_match(prefix, names);
        assert(t.last() == t[t.len() - 1]);
    }
}

proof fn lemma_chosen_single(t: Seq<FeedEntry>, k: int)
    requires
        0 <= k < t.len(),
        t[k].3,
        t.map_values(|e: FeedEntry| e.0).no_duplicates(),
    ensures
        chosen(t, Some(seq![t[k].0])) == seq![t[k]],
    decreases t.len(),
{
    let names = t.map_values(|e: FeedEntry| e.0);
    let sel = seq![t[k].0];
    let prefix = t.drop_last();
    let last = t.len() - 1;
    assert(t.last() == t[last]);
    if k == last {
        assert forall|j: int| 0 <= j < prefix.len() implies !sel.contains(
            (#[trigger] prefix[j]).0,
        ) by {
            assert(prefix[j] == t[j]);
            assert(names[j] == t[j].0);
            assert(names[k] == t[k].0);
            if sel.contains(prefix[j].0) {
                let i = choose|i: int| 0 <= i < sel.len() && sel[i] == prefix[j].0;
                assert(i == 0);
            }
        }
        lemma_chosen_no_match(prefix, sel);
        assert(sel[0] == t[k].0);
        assert(sel.contains(t[k].0));
        assert(Seq::<FeedEntry>::empty().push(t[k]) =~= seq![t[k]]);
    } else {
        let pnames = prefix.map_values(|e: FeedEntry| e.0);
        assert forall|a: int, b: int| 0 <= a < pnames.len() && 0 <= b < pnames.len() && a != b
            implies pnames[a] != pnames[b] by {
            assert(pnames[a] == names[a]);
            assert(pnames[b] == names[b]);
        }
        assert(prefix[k] == t[k]);
        lemma_chosen_single(prefix, k);
        assert(names[last] == t[last].0);
        assert(names[k] == t[k].0);
        if sel.contains(t[last].0) {
            let i = choose|i: int| 0 <= i < sel.len() && sel[i] == t[last].0;
            assert(i == 0);
        }
    }
}

/// The active feed names round-trip through selection: selecting every
/// listed name gives back every active feed, and selecting one listed name
/// gives exactly the feed of that name.
pub proof fn lemma_active_names_round_trip(k: int)
    requires
        0 <= k < active_table().len(),
    ensures
        selected_table(active_table().map_values(|e: FeedEntry| e.0)) == active_table(),
        selected_table(seq![active_table()[k].0]) == seq![active_table()[k]],
{
    let names = active_table().map_values(|e: FeedEntry| e.0);
    assert forall|j: int| 0 <= j < active_table().len() implies names.contains(
        #[trigger] active_table()[j].0,
    ) by {
        assert(names[j] == active_table()[j].0);
    }
    lemma_selection_within_active(names);
    lemma_every_feed_active();
    lemma_feed_names_unique();
    lemma_feed_table_all_active();
    let t = feed_table();
    assert(t[k].3);
    lemma_chosen_single(t, k);
}

/// The name, URL prefix and parser of a feed agree on its site.
pub open spec fn feed_of_site(e: FeedEntry, name_prefix: Seq<char>, url_prefix: Seq<char>) -> bool {
    has_prefix(e.0, name_prefix) && has_prefix(e.1, url_prefix)
}

/// Every feed is parsed by the parser of its site: Politico feeds (named
/// `politico_...`, served from rss.politico.com) by the Politico parser, WSJ
/// feeds (`wsj_...`, feeds.content.dowjones.io) by the WSJ parser, Bloomberg
/// feeds (`bloomberg_...`, feeds.bloomberg.com) by the Bloomberg parser, and
/// the CoinDesk feed (www.coindesk.com) by the CoinDesk parser.
pub proof fn lemma_feed_parser_matches_site()
    ensures
        forall|k: int|
            0 <= k < feed_table().len() ==> {
                let e = #[trigger] feed_table()[k];
                &&& e.2 == FeedParser::Politico ==> feed_of_site(
                    e,
                    "politico_"@,
                    "https://rss.politico.com/"@,
                )
                &&& e.2 == FeedParser::Wsj ==> feed_of_site(
                    e,
                    "wsj_"@,
                    "https://feeds.content.dowjones.io/"@,
                )
                &&& e.2 == FeedParser::Bloomberg ==> feed_of_site(
                    e,
                    "bloomberg_"@,
                    "https://feeds.bloomberg.com/"@,
                )
                &&& e.2 == FeedParser::Coindesk ==> feed_of_site(
                    e,
                    "coindesk"@,
                    "https://www.coindesk.com/"@,
                )
            },
{
    let t = feed_table();
    assert forall|k: int| 0 <= k < t.len() implies {
        let e = #[trigger] t[k];
        &&& e.2 == FeedParser::Politico ==> feed_of_site(e, "politico_"@, "https://rss.politico.com/"@)
        &&& e.2 == FeedParser::Wsj ==> feed_of_site(e, "wsj_"@, "https://feeds.content.dowjones.io/"@)
        &&& e.2 == FeedParser::Bloomberg ==> feed_of_site(e, "bloomberg_"@, "https://feeds.bloomberg.com/"@)
        &&& e.2 == FeedParser::Coindesk ==> feed_of_site(e, "coindesk"@, "https://www.coindesk.com/"@)
    } by {
        if k == 0 {
            reveal_strlit("bloomberg_wealth");
            reveal_strlit("https://feeds.bloomberg.com/wealth/news.rss");
            reveal_strlit("bloomberg_");
            reveal_strlit("https://feeds.bloomberg.com/");
            assert(t[0].0.subrange(0, 10) =~= "bloomberg_"@);
            assert(t[0].1.subrange(0, 28) =~= "https://feeds.bloomberg.com/"@);
        } else if k == 1 {
            reveal_strlit("bloomberg_economics");
            reveal_strlit("https://feeds.bloomberg.com/economics/news.rss");
            reveal_strlit("bloomberg_");
            reveal_strlit("https://feeds.bloomberg.com/");
            assert(t[1].0.subrange(0, 10) =~= "bloomberg_"@);
            assert(t[1].1.subrange(0, 28) =~= "https://feeds.bloomberg.com/"@);
        } else if k == 2 {
            reveal_strlit("bloomberg_markets");
            reveal_strlit("https://feeds.bloomberg.com/markets/news.rss");
            reveal_strlit("bloomberg_");
            reveal_strlit("https://feeds.bloomberg.com/");
            assert(t[2].0.subrange(0, 10) =~= "bloomberg_"@);
            assert(t[2].1.subrange(0, 28) =~= "https://feeds.bloomberg.com/"@);
        } else if k == 3 {
            reveal_strlit("coindesk");
            reveal_strlit("https://www.coindesk.com/arc/outboundfeeds/rss");
            reveal_strlit("coindesk");
            reveal_strlit("https://www.coindesk.com/");
            assert(t[3].0.subrange(0, 8) =~= "coindesk"@);
            assert(t[3].1.subrange(0, 25) =~= "https://www.coindesk.com/"@);
        } else if k == 4 {
            reveal_strlit("politico_congress");
            reveal_strlit("https://rss.politico.com/congress.xml");
            reveal_strlit("politico_");
            reveal_strlit("https://rss.politico.com/");
            assert(t[4].0.subrange(0, 9) =~= "politico_"@);
            assert(t[4].1.subrange(0, 25) =~= "https://rss.politico.com/"@);
        } else if k == 5 {
            reveal_strlit("politico_economy");
            reveal_strlit("https://rss.politico.com/economy.xml");
            reveal_strlit("politico_");
            reveal_strlit("https://rss.politico.com/");
            assert(t[5].0.subrange(0, 9) =~= "politico_"@);
            assert(t[5].1.subrange(0, 25) =~= "https://rss.politico.com/"@);
        } else if k == 6 {
            reveal_strlit("politico_politics");
            reveal_strlit("https://rss.politico.com/politics-news.xml");
            reveal_strlit("politico_");
            reveal_strlit("https://rss.politico.com/");
            assert(t[6].0.subrange(0, 9) =~= "politico_"@);
            assert(t[6].1.subrange(0, 25) =~= "https://rss.politico.com/"@);
        } else if k == 7 {
            reveal_strlit("wsj_world");
            reveal_strlit("https://feeds.content.dowjones.io/public/rss/RSSWorldNews");
            reveal_strlit("wsj_");
            reveal_strlit("https://feeds.content.dowjones.io/");
            assert(t[7].0.subrange(0, 4) =~= "wsj_"@);
            assert(t[7].1.subrange(0, 34) =~= "https://feeds.content.dowjones.io/"@);
        } else if k == 8 {
            reveal_strlit("wsj_politics");
            reveal_strlit("https://feeds.content.dowjones.io/public/rss/socialpoliticsfeed");
            reveal_strlit("wsj_");
            reveal_strlit("https://feeds.content.dowjones.io/");
            assert(t[8].0.subrange(0, 4) =~= "wsj_"@);
            assert(t[8].1.subrange(0, 34) =~= "https://feeds.content.dowjones.io/"@);
        } else {
            reveal_strlit("wsj_markets");
            reveal_strlit("https://feeds.content.dowjones.io/public/rss/RSSMarketsMain");
            reveal_strlit("wsj_");
            reveal_strlit("https://feeds.content.dowjones.io/");
            assert(t[9].0.subrange(0, 4) =~= "wsj_"@);
            assert(t[9].1.subrange(0, 34) =~= "https://feeds.content.dowjones.io/"@);
        }
    }
}

} // verus!
