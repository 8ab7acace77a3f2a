//! The Wall Street Journal feed format: items with `title`, `link`,
//! `description`, `pubDate` and `dc:creator`.

use super::{
    xml_items,
    assemble_events, assemble_run, assemble_xml, assembled_items, opens_item, event_views, item_views, opt_item_view,
    opt_view, strip_cdata, strip_cdata_opt, strip_cdata_opt_spec, strip_cdata_spec,
    FeedAssembler, FeedEvent, FeedStep, RssItem, RssItemView, RssParseError,
};
use crate::text::str_equal;
use crate::time::{parse_rfc2822, rfc2822_instant, Timestamp};
use vstd::prelude::*;
use vstd::string::StringSliceAdditionalSpecFns;

verus! {

/// A WSJ item with everything the feed gives about it.
#[derive(Clone, PartialEq, Eq, Debug)]
pub struct WsjRssItem {
    pub title: String,
    pub link: String,
    pub description: Option<String>,
    pub published_at: Timestamp,
    pub creators: Vec<String>,
}

impl WsjRssItem {
    /// The normalised item, under the source name `wsj`.
    pub fn into_rss_item(self) -> (item: RssItem)
        ensures
            item@ == (RssItemView {
                source: "wsj"@,
                title: self.title@,
                link: self.link@,
                summary: opt_view(self.description),
                published_at: Some(self.published_at),
            }),
    {
        RssItem::new("wsj", self.title, self.link, self.description, Some(self.published_at))
    }
}

/// The state of the WSJ assembler, as character sequences.
pub struct WsjModel {
    pub in_item: bool,
    pub title: Option<Seq<char>>,
    pub link: Option<Seq<char>>,
    pub description: Option<Seq<char>>,
    pub published_at: Option<Seq<char>>,
    pub creators: Seq<Seq<char>>,
}

/// The elements inside an item whose text the WSJ parser reads.
pub open spec fn wsj_field(name: Seq<char>) -> bool {
    ||| name == "title"@
    ||| name == "link"@
    ||| name == "description"@
    ||| name == "pubDate"@
    ||| name == "dc:creator"@
}

/// The state after reading the text `text` of element `name` inside an item.
pub open spec fn wsj_read_field(m: WsjModel, name: Seq<char>, text: Option<Seq<char>>) -> WsjModel {
    if name == "title"@ {
        WsjModel { title: strip_cdata_opt_spec(text), ..m }
    } else if name == "link"@ {
        WsjModel { link: text, ..m }
    } else if name == "description"@ {
        WsjModel { description: strip_cdata_opt_spec(text), ..m }
    } else if name == "pubDate"@ {
        WsjModel { published_at: text, ..m }
    } else if name == "dc:creator"@ {
        match text {
            Some(t) => WsjModel { creators: m.creators.push(strip_cdata_spec(t)), ..m },
            None => m,
        }
    } else {
        m
    }
}

/// Whether the item being read has a title, a link and a date.
pub open spec fn wsj_complete(m: WsjModel) -> bool {
    m.title is Some && m.link is Some && m.published_at is Some
}

/// One step of the WSJ assembler. The end of an item takes its title, link
/// and date away (and its description too when all three were there),
/// whether or not an item was open.
pub open spec fn wsj_next(m: WsjModel, step: FeedStep) -> WsjModel {
    match step {
        FeedStep::Start { name, text } => if name == "item"@ {
            WsjModel {
                in_item: true,
                title: None,
                link: None,
                description: None,
                published_at: None,
                creators: Seq::empty(),
            }
        } else if m.in_item {
            wsj_read_field(m, name, text)
        } else {
            m
        },
        FeedStep::ItemEnd { now } => WsjModel {
            in_item: false,
            title: None,
            link: None,
            published_at: None,
            description: if wsj_complete(m) {
                None
            } else {
                m.description
            },
            ..m
        },
        FeedStep::Other => m,
    }
}

/// The publication instant of an item: its RFC 2822 date, else `now`.
pub open spec fn wsj_published(date: Seq<char>, now: Timestamp) -> Timestamp {
    match rfc2822_instant(date) {
        Some(t) => t,
        None => now,
    }
}

/// The item that a step completes: at the end of an item that has a title,
/// a link and a date.
pub open spec fn wsj_emit(m: WsjModel, step: FeedStep) -> Option<RssItemView> {
    match step {
        FeedStep::ItemEnd { now } => if wsj_complete(m) {
            Some(
                RssItemView {
                    source: "wsj"@,
                    title: m.title->0,
                    link: m.link->0,
                    summary: m.description,
                    published_at: Some(wsj_published(m.published_at->0, now)),
                },
            )
        } else {
            None
        },
        _ => None,
    }
}

/// The running state of the WSJ parser.
pub struct WsjItemState {
    pub in_item: bool,
    pub title: Option<String>,
    pub link: Option<String>,
    pub description: Option<String>,
    pub published_at: Option<String>,
    pub creators: Vec<String>,
}

impl WsjItemState {
    /// The state before the first item.
    pub open spec fn initial_model() -> WsjModel {
        WsjModel {
            in_item: false,
            title: None,
            link: None,
            description: None,
            published_at: None,
            creators: Seq::empty(),
        }
    }

    pub fn new() -> (s: WsjItemState)
        ensures
            s.model() == Self::initial_model(),
    {
        let s = WsjItemState {
            in_item: false,
            title: None,
            link: None,
            description: None,
            published_at: None,
            creators: Vec::new(),
        };
        assert(s.model().creators =~= Seq::<Seq<char>>::empty());
        s
    }
}

impl FeedAssembler for WsjItemState {
    type Model = WsjModel;

    open spec fn model(&self) -> WsjModel {
        WsjModel {
            in_item: self.in_item,
            title: opt_view(self.title),
            link: opt_view(self.link),
            description: opt_view(self.description),
            published_at: opt_view(self.published_at),
            creators: self.creators@.map_values(|s: String| s@),
        }
    }

    open spec fn wants_text_spec(m: WsjModel, name: Seq<char>) -> bool {
        m.in_item && name != "item"@ && wsj_field(name)
    }

    open spec fn next_spec(m: WsjModel, step: FeedStep) -> WsjModel {
        wsj_next(m, step)
    }

    open spec fn emit_spec(m: WsjModel, step: FeedStep) -> Option<RssItemView> {
        wsj_emit(m, step)
    }

    proof fn lemma_item_end_state_ignores_time(m: Self::Model, a: Timestamp, b: Timestamp) {
    }

    fn wants_text(&self, name: &str) -> (b: bool) {
        self.in_item && !str_equal(name, "item") && (str_equal(name, "title") || str_equal(
            name,
            "link",
        ) || str_equal(name, "description") || str_equal(name, "pubDate") || str_equal(
            name,
            "dc:creator",
        ))
    }

    fn apply(&mut self, event: FeedEvent) -> (out: Option<RssItem>) {
        match event {
            FeedEvent::Start { name, text } => {
                if str_equal(name.as_str(), "item") {
                    self.in_item = true;
                    self.title = None;
                    self.link = None;
                    self.description = None;
                    self.published_at = None;
                    self.creators.clear();
                    assert(self.model().creators =~= Seq::<Seq<char>>::empty());
                } else if self.in_item {
                    let n = name.as_str();
                    if str_equal(n, "title") {
                        self.title = strip_cdata_opt(&text);
                    } else if str_equal(n, "link") {
                        self.link = text;
                    } else if str_equal(n, "description") {
                        self.description = strip_cdata_opt(&text);
                    } else if str_equal(n, "pubDate") {
                        self.published_at = text;
                    } else if str_equal(n, "dc:creator") {
                        if let Some(t) = text {
                            let creator = strip_cdata(t.as_str());
                            self.creators.push(creator);
                            assert(self.model().creators =~= old(self).model().creators.push(
                                strip_cdata_spec(t@),
                            ));
                        }
                    }
                }
                None
            },
            FeedEvent::ItemEnd { now } => {
                self.in_item = false;
                let title = self.title.take();
                let link = self.link.take();
                let date = self.published_at.take();
                if let (Some(title), Some(link), Some(pubdate)) = (title, link, date) {
                    let parsed_dt = match parse_rfc2822(pubdate.as_str()) {
                        Ok(t) => t,
                        Err(_) => now,
                    };
                    let item = WsjRssItem {
                        title,
                        link,
                        description: self.description.take(),
                        published_at: parsed_dt,
                        creators: self.creators.clone(),
                    };
                    return Some(item.into_rss_item());
                }
                None
            },
            FeedEvent::Other => None,
        }
    }
}

/// The parser of WSJ feeds.
pub struct WsjRssParser;

impl WsjRssParser {
    /// The items of a sequence of feed events.
    pub fn items_from_events(&self, events: Vec<FeedEvent>) -> (items: Vec<RssItem>)
        ensures
            item_views(items@) == assembled_items::<WsjItemState>(
                WsjItemState::initial_model(),
                event_views(events@),
            ),
    {
        assemble_events(WsjItemState::new(), events)
    }

    /// Parses a WSJ feed. The parse fails exactly when the XML reader reports
    /// an error. Every item comes from an `item` element with a title, a link
    /// and a `pubDate`; it is dated by that date when it reads as RFC 2822,
    /// and by the current time otherwise.
    pub fn parse(&self, xml: &str) -> (r: Result<Vec<RssItem>, RssParseError>)
        ensures
            r matches Ok(items) ==> exists|steps: Seq<FeedStep>|
                item_views(items@) == #[trigger] assembled_items::<WsjItemState>(
                    WsjItemState::initial_model(),
                    steps,
                ),
            r is Err <==> forall|nows: Seq<Timestamp>|
                (#[trigger] xml_items::<WsjItemState>(
                    xml@,
                    xml.spec_bytes().len(),
                    0,
                    WsjItemState::initial_model(),
                    nows,
                )) is None,
            r matches Ok(items) ==> exists|nows: Seq<Timestamp>|
                #[trigger] xml_items::<WsjItemState>(
                    xml@,
                    xml.spec_bytes().len(),
                    0,
                    WsjItemState::initial_model(),
                    nows,
                ) == Some(item_views(items@)),
            r matches Err(e) ==> e is Xml,
    {
        assemble_xml(WsjItemState::new(), xml)
    }
}

/// Every item the parser yields is labelled with the source `wsj` and
/// carries a publication instant.
pub proof fn lemma_wsj_items_labelled(steps: Seq<FeedStep>)
    ensures
        forall|k: int|
            0 <= k < assembled_items::<WsjItemState>(WsjItemState::initial_model(), steps).len() ==> {
                let item = #[trigger] assembled_items::<WsjItemState>(WsjItemState::initial_model(), steps)[k];
                item.source == "wsj"@ && item.published_at is Some
            },
    decreases steps.len(),
{
    if steps.len() > 0 {
        lemma_wsj_items_labelled(steps.drop_last());
    }
}

/// Only `item` elements yield items: without an opening `item` tag the
/// parser's state never leaves its initial state and nothing is yielded.
pub proof fn lemma_wsj_items_only_inside_item_elements(steps: Seq<FeedStep>)
    requires
        forall|k: int| 0 <= k < steps.len() ==> !opens_item(#[trigger] steps[k]),
    ensures
        assemble_run::<WsjItemState>(WsjItemState::initial_model(), steps) == (WsjItemState::initial_model(), Seq::<
            RssItemView,
        >::empty()),
    decreases steps.len(),
{
    if steps.len() > 0 {
        let prefix = steps.drop_last();
        assert forall|k: int| 0 <= k < prefix.len() implies !opens_item(#[trigger] prefix[k]) by {
            assert(prefix[k] == steps[k]);
        }
        lemma_wsj_items_only_inside_item_elements(prefix);
        assert(!opens_item(steps[steps.len() - 1]));
    }
}

proof fn lemma_wsj_names_distinct()
    ensures
        "item"@ != "title"@,
        "item"@ != "link"@,
        "item"@ != "description"@,
        "item"@ != "pubDate"@,
        "item"@ != "dc:creator"@,
        "title"@ != "link"@,
        "title"@ != "description"@,
        "title"@ != "pubDate"@,
        "title"@ != "dc:creator"@,
        "link"@ != "description"@,
        "link"@ != "pubDate"@,
        "link"@ != "dc:creator"@,
        "description"@ != "pubDate"@,
        "description"@ != "dc:creator"@,
        "pubDate"@ != "dc:creator"@,
{
    reveal_strlit("item");
    reveal_strlit("title");
    reveal_strlit("link");
    reveal_strlit("description");
    reveal_strlit("pubDate");
    reveal_strlit("dc:creator");
    assert("link"@[0] != "item"@[0]);
    assert("item"@.len() == 4);
    assert("title"@.len() == 5);
    assert("link"@.len() == 4);
    assert("description"@.len() == 11);
    assert("pubDate"@.len() == 7);
    assert("dc:creator"@.len() == 10);
}

/// Inside an item, the parser reads the text of its title, link,
/// description, date and creators.
pub proof fn lemma_wsj_reads_every_field(m: WsjModel)
    requires
        m.in_item,
    ensures
        <WsjItemState as FeedAssembler>::wants_text_spec(m, "title"@),
        <WsjItemState as FeedAssembler>::wants_text_spec(m, "link"@),
        <WsjItemState as FeedAssembler>::wants_text_spec(m, "description"@),
        <WsjItemState as FeedAssembler>::wants_text_spec(m, "pubDate"@),
        <WsjItemState as FeedAssembler>::wants_text_spec(m, "dc:creator"@),
{
    lemma_wsj_names_distinct();
}

/// An item with a title `a`, a link `l`, a description `d` and a `pubDate`
/// `p` becomes one item: title and description are cleaned of a CDATA
/// wrapper and surrounding whitespace, the link is kept as read, and the
/// date is read as RFC 2822, else the time the item ended.
pub proof fn lemma_wsj_item_fields(a: Seq<char>, l: Seq<char>, d: Seq<char>, p: Seq<char>, now: Timestamp)
    ensures
        assembled_items::<WsjItemState>(
            WsjItemState::initial_model(),
            seq![
                FeedStep::Start { name: "item"@, text: None },
                FeedStep::Start { name: "title"@, text: Some(a) },
                FeedStep::Start { name: "link"@, text: Some(l) },
                FeedStep::Start { name: "description"@, text: Some(d) },
                FeedStep::Start { name: "pubDate"@, text: Some(p) },
                FeedStep::ItemEnd { now },
            ],
        ) == seq![
            RssItemView {
                source: "wsj"@,
                title: strip_cdata_spec(a),
                link: l,
                summary: Some(strip_cdata_spec(d)),
                published_at: Some(
                    match rfc2822_instant(p) {
                        Some(t) => t,
                        None => now,
                    },
                ),
            },
        ],
{
    lemma_wsj_names_distinct();
    let steps = seq![
                FeedStep::Start { name: "item"@, text: None },
                FeedStep::Start { name: "title"@, text: Some(a) },
                FeedStep::Start { name: "link"@, text: Some(l) },
                FeedStep::Start { name: "description"@, text: Some(d) },
                FeedStep::Start { name: "pubDate"@, text: Some(p) },
                FeedStep::ItemEnd { now },
            ];
    assert(steps.take(1).drop_last() =~= steps.take(0));
    assert(steps.take(1).last() == steps[0]);
    assert(steps.take(2).drop_last() =~= steps.take(1));
    assert(steps.take(2).last() == steps[1]);
    assert(steps.take(3).drop_last() =~= steps.take(2));
    assert(steps.take(3).last() == steps[2]);
    assert(steps.take(4).drop_last() =~= steps.take(3));
    assert(steps.take(4).last() == steps[3]);
    assert(steps.take(5).drop_last() =~= steps.take(4));
    assert(steps.take(5).last() == steps[4]);
    assert(steps.take(6).drop_last() =~= steps.take(5));
    assert(steps.take(6).last() == steps[5]);
    assert(steps.take(6) =~= steps);
    assert(steps.take(0) =~= Seq::<FeedStep>::empty());
    let m0 = WsjItemState::initial_model();
    let r0 = assemble_run::<WsjItemState>(m0, steps.take(0));
    let r1 = assemble_run::<WsjItemState>(m0, steps.take(1));
    let r2 = assemble_run::<WsjItemState>(m0, steps.take(2));
    let r3 = assemble_run::<WsjItemState>(m0, steps.take(3));
    let r4 = assemble_run::<WsjItemState>(m0, steps.take(4));
    let r5 = assemble_run::<WsjItemState>(m0, steps.take(5));
    let r6 = assemble_run::<WsjItemState>(m0, steps.take(6));
    assert(r6.1 =~= seq![
            RssItemView {
                source: "wsj"@,
                title: strip_cdata_spec(a),
                link: l,
                summary: Some(strip_cdata_spec(d)),
                published_at: Some(
                    match rfc2822_instant(p) {
                        Some(t) => t,
                        None => now,
                    },
                ),
            },
        ]);
}

/// An item without a `pubDate` yields nothing, and its description does not
/// reach the next item.
pub proof fn lemma_wsj_undated_item_dropped(
    a: Seq<char>,
    l: Seq<char>,
    d: Seq<char>,
    b: Seq<char>,
    k: Seq<char>,
    p: Seq<char>,
    now: Timestamp,
    later: Timestamp,
)
    ensures
        assembled_items::<WsjItemState>(
            WsjItemState::initial_model(),
            seq![
                FeedStep::Start { name: "item"@, text: None },
                FeedStep::Start { name: "title"@, text: Some(a) },
                FeedStep::Start { name: "link"@, text: Some(l) },
                FeedStep::Start { name: "description"@, text: Some(d) },
                FeedStep::ItemEnd { now },
                FeedStep::Start { name: "item"@, text: None },
                FeedStep::Start { name: "title"@, text: Some(b) },
                FeedStep::Start { name: "link"@, text: Some(k) },
                FeedStep::Start { name: "pubDate"@, text: Some(p) },
                FeedStep::ItemEnd { now: later },
            ],
        ) == seq![
            RssItemView {
                source: "wsj"@,
                title: strip_cdata_spec(b),
                link: k,
                summary: None,
                published_at: Some(
                    match rfc2822_instant(p) {
                        Some(t) => t,
                        None => later,
                    },
                ),
            },
        ],
{
    lemma_wsj_names_distinct();
    let steps = seq![
        FeedStep::Start { name: "item"@, text: None },
        FeedStep::Start { name: "title"@, text: Some(a) },
        FeedStep::Start { name: "link"@, text: Some(l) },
        FeedStep::Start { name: "description"@, text: Some(d) },
        FeedStep::ItemEnd { now },
        FeedStep::Start { name: "item"@, text: None },
        FeedStep::Start { name: "title"@, text: Some(b) },
        FeedStep::Start { name: "link"@, text: Some(k) },
        FeedStep::Start { name: "pubDate"@, text: Some(p) },
        FeedStep::ItemEnd { now: later },
    ];
    assert(steps.take(1).drop_last() =~= steps.take(0));
    assert(steps.take(1).last() == steps[0]);
    assert(steps.take(2).drop_last() =~= steps.take(1));
    assert(steps.take(2).last() == steps[1]);
    assert(steps.take(3).drop_last() =~= steps.take(2));
    assert(steps.take(3).last() == steps[2]);
    assert(steps.take(4).drop_last() =~= steps.take(3));
    assert(steps.take(4).last() == steps[3]);
    assert(steps.take(5).drop_last() =~= steps.take(4));
    assert(steps.take(5).last() == steps[4]);
    assert(steps.take(6).drop_last() =~= steps.take(5));
    assert(steps.take(6).last() == steps[5]);
    assert(steps.take(7).drop_last() =~= steps.take(6));
    assert(steps.take(7).last() == steps[6]);
    assert(steps.take(8).drop_last() =~= steps.take(7));
    assert(steps.take(8).last() == steps[7]);
    assert(steps.take(9).drop_last() =~= steps.take(8));
    assert(steps.take(9).last() == steps[8]);
    assert(steps.take(10).drop_last() =~= steps.take(9));
    assert(steps.take(10).last() == steps[9]);
    assert(steps.take(10) =~= steps);
    assert(steps.take(0) =~= Seq::<FeedStep>::empty());
    let m0 = WsjItemState::initial_model();
    let r0 = assemble_run::<WsjItemState>(m0, steps.take(0));
    let r1 = assemble_run::<WsjItemState>(m0, steps.take(1));
    let r2 = assemble_run::<WsjItemState>(m0, steps.take(2));
    let r3 = assemble_run::<WsjItemState>(m0, steps.take(3));
    let r4 = assemble_run::<WsjItemState>(m0, steps.take(4));
    let r5 = assemble_run::<WsjItemState>(m0, steps.take(5));
    let r6 = assemble_run::<WsjItemState>(m0, steps.take(6));
    let r7 = assemble_run::<WsjItemState>(m0, steps.take(7));
    let r8 = assemble_run::<WsjItemState>(m0, steps.take(8));
    let r9 = assemble_run::<WsjItemState>(m0, steps.take(9));
    let r10 = assemble_run::<WsjItemState>(m0, steps.take(10));
    assert(r5.1.len() == 0);
    assert(r10.1 =~= seq![
        RssItemView {
            source: "wsj"@,
            title: strip_cdata_spec(b),
            link: k,
            summary: None,
            published_at: Some(
                match rfc2822_instant(p) {
                    Some(t) => t,
                    None => later,
                },
            ),
        },
    ]);
}

} // verus!
