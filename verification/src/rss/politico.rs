//! The Politico feed format: items with `title`, `link`, `description`,
//! `content:encoded`, `pubDate`, `dcterms:modified`, `dc:creator` and
//! `dc:contributor`.

use super::{
    xml_items,
    assemble_events, assemble_run, assemble_xml, assembled_items, opens_item, clone_opt, event_views, has_prefix,
    item_views, opt_item_view, opt_view, strip_cdata, strip_cdata_opt, strip_cdata_opt_spec,
    strip_cdata_spec, FeedAssembler, FeedEvent, FeedStep, RssItem, RssItemView, RssParseError,
};
use crate::text::{is_blank, str_equal, trimmed};
use crate::time::{parse_rfc2822, parse_rfc3339, rfc2822_instant, rfc3339_instant, Timestamp};
use vstd::prelude::*;
use vstd::string::StringSliceAdditionalSpecFns;
use vstd::string::StringExecFns;

verus! {

/// A Politico item with everything the feed gives about it.
#[derive(Clone, PartialEq, Eq, Debug)]
pub struct PoliticoRssItem {
    pub title: String,
    pub link: String,
    pub summary_html: Option<String>,
    pub published_at: Timestamp,
    pub creators: Vec<String>,
    pub contributors: Vec<String>,
}

impl PoliticoRssItem {
    /// The normalised item, under the source name `politico`.
    pub fn into_rss_item(self) -> (item: RssItem)
        ensures
            item@ == (RssItemView {
                source: "politico"@,
                title: self.title@,
                link: self.link@,
                summary: opt_view(self.summary_html),
                published_at: Some(self.published_at),
            }),
    {
        RssItem::new("politico", self.title, self.link, self.summary_html, Some(self.published_at))
    }
}

/// The instant a Politico date names: RFC 2822 first, then RFC 3339.
pub open spec fn politico_date_spec(s: Seq<char>) -> Option<Timestamp> {
    match rfc2822_instant(s) {
        Some(t) => Some(t),
        None => rfc3339_instant(s),
    }
}

/// The summary of an item: the HTML content when it is not blank, else the
/// description.
pub open spec fn choose_summary_spec(
    content_html: Option<Seq<char>>,
    description: Option<Seq<char>>,
) -> Option<Seq<char>> {
    match content_html {
        Some(c) => if trimmed(c).len() != 0 {
            Some(c)
        } else {
            description
        },
        None => description,
    }
}

/// The state of the Politico assembler, as character sequences.
pub struct PoliticoModel {
    pub in_item: bool,
    pub title: Option<Seq<char>>,
    pub link: Option<Seq<char>>,
    pub description: Option<Seq<char>>,
    pub content_html: Option<Seq<char>>,
    pub pub_date: Option<Seq<char>>,
    pub modified_date: Option<Seq<char>>,
    pub creators: Seq<Seq<char>>,
    pub contributors: Seq<Seq<char>>,
}

/// The elements inside an item whose text the Politico parser reads.
pub open spec fn politico_field(name: Seq<char>) -> bool {
    ||| name == "title"@
    ||| name == "link"@
    ||| name == "description"@
    ||| name == "content:encoded"@
    ||| name == "pubDate"@
    ||| name == "dcterms:modified"@
    ||| name == "dc:creator"@
    ||| name == "dc:contributor"@
}

/// The state in which an item starts.
pub open spec fn politico_fresh_item() -> PoliticoModel {
    PoliticoModel {
        in_item: true,
        title: None,
        link: None,
        description: None,
        content_html: None,
        pub_date: None,
        modified_date: None,
        creators: Seq::empty(),
        contributors: Seq::empty(),
    }
}

/// The state after reading the text `text` of element `name` inside an item.
pub open spec fn politico_read_field(
    m: PoliticoModel,
    name: Seq<char>,
    text: Option<Seq<char>>,
) -> PoliticoModel {
    if name == "title"@ {
        PoliticoModel { title: strip_cdata_opt_spec(text), ..m }
    } else if name == "link"@ {
        PoliticoModel { link: text, ..m }
    } else if name == "description"@ {
        PoliticoModel { description: strip_cdata_opt_spec(text), ..m }
    } else if name == "content:encoded"@ {
        PoliticoModel { content_html: strip_cdata_opt_spec(text), ..m }
    } else if name == "pubDate"@ {
        PoliticoModel { pub_date: text, ..m }
    } else if name == "dcterms:modified"@ {
        PoliticoModel { modified_date: text, ..m }
    } else if name == "dc:creator"@ {
        match text {
            Some(t) => PoliticoModel { creators: m.creators.push(strip_cdata_spec(t)), ..m },
            None => m,
        }
    } else if name == "dc:contributor"@ {
        match text {
            Some(t) => PoliticoModel { contributors: m.contributors.push(strip_cdata_spec(t)), ..m },
            None => m,
        }
    } else {
        m
    }
}

/// One step of the Politico assembler.
pub open spec fn politico_next(m: PoliticoModel, step: FeedStep) -> PoliticoModel {
    match step {
        FeedStep::Start { name, text } => if name == "item"@ {
            politico_fresh_item()
        } else if m.in_item {
            politico_read_field(m, name, text)
        } else {
            m
        },
        FeedStep::ItemEnd { now } => if m.in_item {
            PoliticoModel { in_item: false, title: None, link: None, ..m }
        } else {
            m
        },
        FeedStep::Other => m,
    }
}

/// The date text an item is dated by: `pubDate`, else `dcterms:modified`.
pub open spec fn politico_date_candidate(m: PoliticoModel) -> Option<Seq<char>> {
    match m.pub_date {
        Some(d) => Some(d),
        None => m.modified_date,
    }
}

/// The publication instant of an item dated by `date`: the instant it
/// names when readable, else `now`.
pub open spec fn politico_published(date: Seq<char>, now: Timestamp) -> Timestamp {
    match politico_date_spec(date) {
        Some(t) => t,
        None => now,
    }
}

/// Whether the item being read has a title, a link and a date.
pub open spec fn politico_complete(m: PoliticoModel) -> bool {
    m.title is Some && m.link is Some && politico_date_candidate(m) is Some
}

/// The item that a step completes: at the end of an item that has a title,
/// a link and a date.
pub open spec fn politico_emit(m: PoliticoModel, step: FeedStep) -> Option<RssItemView> {
    match step {
        FeedStep::ItemEnd { now } => if m.in_item && politico_complete(m) {
            Some(
                RssItemView {
                    source: "politico"@,
                    title: m.title->0,
                    link: m.link->0,
                    summary: choose_summary_spec(m.content_html, m.description),
                    published_at: Some(
                        politico_published(politico_date_candidate(m)->0, now),
                    ),
                },
            )
        } else {
            None
        },
        _ => None,
    }
}

/// The running state of the Politico parser.
pub struct PoliticoItemState {
    pub in_item: bool,
    pub title: Option<String>,
    pub link: Option<String>,
    pub description: Option<String>,
    pub content_html: Option<String>,
    pub pub_date: Option<String>,
    pub modified_date: Option<String>,
    pub creators: Vec<String>,
    pub contributors: Vec<String>,
}

impl PoliticoItemState {
    /// The state before the first item.
    pub open spec fn initial_model() -> PoliticoModel {
        PoliticoModel {
            in_item: false,
            title: None,
            link: None,
            description: None,
            content_html: None,
            pub_date: None,
            modified_date: None,
            creators: Seq::empty(),
            contributors: Seq::empty(),
        }
    }

    pub fn new() -> (s: PoliticoItemState)
        ensures
            s.model() == Self::initial_model(),
    {
        let s = PoliticoItemState {
            in_item: false,
            title: None,
            link: None,
            description: None,
            content_html: None,
            pub_date: None,
            modified_date: None,
            creators: Vec::new(),
            contributors: Vec::new(),
        };
        assert(s.model().creators =~= Seq::<Seq<char>>::empty());
        assert(s.model().contributors =~= Seq::<Seq<char>>::empty());
        s
    }
}

impl FeedAssembler for PoliticoItemState {
    type Model = PoliticoModel;

    open spec fn model(&self) -> PoliticoModel {
        PoliticoModel {
            in_item: self.in_item,
            title: opt_view(self.title),
            link: opt_view(self.link),
            description: opt_view(self.description),
            content_html: opt_view(self.content_html),
            pub_date: opt_view(self.pub_date),
            modified_date: opt_view(self.modified_date),
            creators: self.creators@.map_values(|s: String| s@),
            contributors: self.contributors@.map_values(|s: String| s@),
        }
    }

    open spec fn wants_text_spec(m: PoliticoModel, name: Seq<char>) -> bool {
        m.in_item && name != "item"@ && politico_field(name)
    }

    open spec fn next_spec(m: PoliticoModel, step: FeedStep) -> PoliticoModel {
        politico_next(m, step)
    }

    open spec fn emit_spec(m: PoliticoModel, step: FeedStep) -> Option<RssItemView> {
        politico_emit(m, step)
    }

    proof fn lemma_item_end_state_ignores_time(m: Self::Model, a: Timestamp, b: Timestamp) {
    }

    fn wants_text(&self, name: &str) -> (b: bool) {
        self.in_item && !str_equal(name, "item") && (str_equal(name, "title") || str_equal(
            name,
            "link",
        ) || str_equal(name, "description") || str_equal(name, "content:encoded") || str_equal(
            name,
            "pubDate",
        ) || str_equal(name, "dcterms:modified") || str_equal(name, "dc:creator") || str_equal(
            name,
            "dc:contributor",
        ))
    }

    fn apply(&mut self, event: FeedEvent) -> (out: Option<RssItem>) {
        match event {
            FeedEvent::Start { name, text } => {
                if str_equal(name.as_str(), "item") {
                    self.in_item = true;
                    self.title = None;
                    self.link = None;
                    self.description = None;
                    self.content_html = None;
                    self.pub_date = None;
                    self.modified_date = None;
                    self.creators.clear();
                    self.contributors.clear();
                    assert(self.model().creators =~= Seq::<Seq<char>>::empty());
                    assert(self.model().contributors =~= Seq::<Seq<char>>::empty());
                } else if self.in_item {
                    let n = name.as_str();
                    if str_equal(n, "title") {
                        self.title = strip_cdata_opt(&text);
                    } else if str_equal(n, "link") {
                        self.link = text;
                    } else if str_equal(n, "description") {
                        self.description = strip_cdata_opt(&text);
                    } else if str_equal(n, "content:encoded") {
                        self.content_html = strip_cdata_opt(&text);
                    } else if str_equal(n, "pubDate") {
                        self.pub_date = text;
                    } else if str_equal(n, "dcterms:modified") {
                        self.modified_date = text;
                    } else if str_equal(n, "dc:creator") {
                        if let Some(t) = text {
                            let author = strip_cdata(t.as_str());
                            self.creators.push(author);
                            assert(self.model().creators =~= old(self).model().creators.push(
                                strip_cdata_spec(t@),
                            ));
                        }
                    } else if str_equal(n, "dc:contributor") {
                        if let Some(t) = text {
                            let contributor = strip_cdata(t.as_str());
                            self.contributors.push(contributor);
                            assert(self.model().contributors
                                =~= old(self).model().contributors.push(strip_cdata_spec(t@)));
                        }
                    }
                }
                None
            },
            FeedEvent::ItemEnd { now } => {
                if self.in_item {
                    self.in_item = false;
                    let title = self.title.take();
                    let link = self.link.take();
                    let date_candidate = match &self.pub_date {
                        Some(d) => Some(d.clone()),
                        None => clone_opt(&self.modified_date),
                    };
                    if let (Some(title), Some(link), Some(date_str)) = (
                        title,
                        link,
                        date_candidate,
                    ) {
                        let published_at = match PoliticoRssParser::parse_date(date_str.as_str()) {
                            Ok(t) => t,
                            Err(_) => now,
                        };
                        let summary = PoliticoRssParser::choose_summary(
                            &self.content_html,
                            &self.description,
                        );
                        let item = PoliticoRssItem {
                            title,
                            link,
                            summary_html: summary,
                            published_at,
                            creators: self.creators.clone(),
                            contributors: self.contributors.clone(),
                        };
                        return Some(item.into_rss_item());
                    }
                }
                None
            },
            FeedEvent::Other => None,
        }
    }
}

/// The parser of Politico feeds.
pub struct PoliticoRssParser;

impl PoliticoRssParser {
    /// Reads a Politico date: RFC 2822, else RFC 3339.
    pub fn parse_date(date_str: &str) -> (r: Result<Timestamp, RssParseError>)
        ensures
            r is Ok <==> politico_date_spec(date_str@) is Some,
            r matches Ok(t) ==> politico_date_spec(date_str@) == Some(t),
            r matches Err(e) ==> e matches RssParseError::InvalidDate(m) && has_prefix(
                m@,
                "Politico date parse failed: "@ + date_str@ + " ("@,
            ),
    {
        match parse_rfc2822(date_str) {
            Ok(t) => Ok(t),
            Err(_) => match parse_rfc3339(date_str) {
                Ok(t) => Ok(t),
                Err(err) => {
                    let mut message = String::from_str("Politico date parse failed: ");
                    message.append(date_str);
                    message.append(" (");
                    let ghost head = message@;
                    message.append(err.as_str());
                    message.append(")");
                    assert(message@.subrange(0, head.len() as int) =~= head);
                    Err(RssParseError::InvalidDate(message))
                },
            },
        }
    }

    /// The summary of an item: the HTML content unless it is blank, else the
    /// description.
    pub fn choose_summary(content_html: &Option<String>, description: &Option<String>) -> (r:
        Option<String>)
        ensures
            opt_view(r) == choose_summary_spec(opt_view(*content_html), opt_view(*description)),
    {
        if let Some(content) = content_html {
            if !is_blank(content.as_str()) {
                return Some(content.clone());
            }
        }
        clone_opt(description)
    }

    /// The items of a sequence of feed events.
    pub fn items_from_events(&self, events: Vec<FeedEvent>) -> (items: Vec<RssItem>)
        ensures
            item_views(items@) == assembled_items::<PoliticoItemState>(
                PoliticoItemState::initial_model(),
                event_views(events@),
            ),
    {
        assemble_events(PoliticoItemState::new(), events)
    }

    /// Parses a Politico feed. The parse fails exactly when the XML reader
    /// reports an error. Every item comes from an `item` element with a
    /// title, a link and a date (`pubDate`, or failing that
    /// `dcterms:modified`); a date that cannot be read gives way to the
    /// current time.
    pub fn parse(&self, xml: &str) -> (r: Result<Vec<RssItem>, RssParseError>)
        ensures
            r matches Ok(items) ==> exists|steps: Seq<FeedStep>|
                item_views(items@) == #[trigger] assembled_items::<PoliticoItemState>(
                    PoliticoItemState::initial_model(),
                    steps,
                ),
            r is Err <==> forall|nows: Seq<Timestamp>|
                (#[trigger] xml_items::<PoliticoItemState>(
                    xml@,
                    xml.spec_bytes().len(),
                    0,
                    PoliticoItemState::initial_model(),
                    nows,
                )) is None,
            r matches Ok(items) ==> exists|nows: Seq<Timestamp>|
                #[trigger] xml_items::<PoliticoItemState>(
                    xml@,
                    xml.spec_bytes().len(),
                    0,
                    PoliticoItemState::initial_model(),
                    nows,
                ) == Some(item_views(items@)),
            r matches Err(e) ==> e is Xml,
    {
        assemble_xml(PoliticoItemState::new(), xml)
    }
}

/// Every item the parser yields is labelled with the source `politico` and
/// carries a publication instant.
pub proof fn lemma_politico_items_labelled(steps: Seq<FeedStep>)
    ensures
        forall|k: int|
            0 <= k < assembled_items::<PoliticoItemState>(PoliticoItemState::initial_model(), steps).len() ==> {
                let item = #[trigger] assembled_items::<PoliticoItemState>(PoliticoItemState::initial_model(), steps)[k];
                item.source == "politico"@ && item.published_at is Some
            },
    decreases steps.len(),
{
    if steps.len() > 0 {
        lemma_politico_items_labelled(steps.drop_last());
    }
}

/// Only `item` elements yield items: without an opening `item` tag the
/// parser's state never leaves its initial state and nothing is yielded.
pub proof fn lemma_politico_items_only_inside_item_elements(steps: Seq<FeedStep>)
    requires
        forall|k: int| 0 <= k < steps.len() ==> !opens_item(#[trigger] steps[k]),
    ensures
        assemble_run::<PoliticoItemState>(PoliticoItemState::initial_model(), steps) == (PoliticoItemState::initial_model(), Seq::<
            RssItemView,
        >::empty()),
    decreases steps.len(),
{
    if steps.len() > 0 {
        let prefix = steps.drop_last();
        assert forall|k: int| 0 <= k < prefix.len() implies !opens_item(#[trigger] prefix[k]) by {
            assert(prefix[k] == steps[k]);
        }
        lemma_politico_items_only_inside_item_elements(prefix);
        assert(!opens_item(steps[steps.len() - 1]));
    }
}

/// The instant an item's date text names: RFC 2822, else RFC 3339, else the
/// time the item was read.
pub open spec fn dated_or_now(date: Seq<char>, now: Timestamp) -> Timestamp {
    match rfc2822_instant(date) {
        Some(t) => t,
        None => match rfc3339_instant(date) {
            Some(t) => t,
            None => now,
        },
    }
}

proof fn lemma_politico_names_distinct()
    ensures
        "item"@ != "title"@,
        "item"@ != "link"@,
        "item"@ != "description"@,
        "item"@ != "content:encoded"@,
        "item"@ != "pubDate"@,
        "item"@ != "dcterms:modified"@,
        "item"@ != "dc:creator"@,
        "item"@ != "dc:contributor"@,
        "title"@ != "link"@,
        "title"@ != "description"@,
        "title"@ != "content:encoded"@,
        "title"@ != "pubDate"@,
        "title"@ != "dcterms:modified"@,
        "title"@ != "dc:creator"@,
        "title"@ != "dc:contributor"@,
        "link"@ != "description"@,
        "link"@ != "content:encoded"@,
        "link"@ != "pubDate"@,
        "link"@ != "dcterms:modified"@,
        "link"@ != "dc:creator"@,
        "link"@ != "dc:contributor"@,
        "description"@ != "content:encoded"@,
        "description"@ != "pubDate"@,
        "description"@ != "dcterms:modified"@,
        "description"@ != "dc:creator"@,
        "description"@ != "dc:contributor"@,
        "content:encoded"@ != "pubDate"@,
        "content:encoded"@ != "dcterms:modified"@,
        "content:encoded"@ != "dc:creator"@,
        "content:encoded"@ != "dc:contributor"@,
        "pubDate"@ != "dcterms:modified"@,
        "pubDate"@ != "dc:creator"@,
        "pubDate"@ != "dc:contributor"@,
        "dcterms:modified"@ != "dc:creator"@,
        "dcterms:modified"@ != "dc:contributor"@,
        "dc:creator"@ != "dc:contributor"@,
{
    reveal_strlit("item");
    reveal_strlit("title");
    reveal_strlit("link");
    reveal_strlit("description");
    reveal_strlit("content:encoded");
    reveal_strlit("pubDate");
    reveal_strlit("dcterms:modified");
    reveal_strlit("dc:creator");
    reveal_strlit("dc:contributor");
    assert("link"@[0] != "item"@[0]);
    assert("item"@.len() == 4);
    assert("title"@.len() == 5);
    assert("link"@.len() == 4);
    assert("description"@.len() == 11);
    assert("content:encoded"@.len() == 15);
    assert("pubDate"@.len() == 7);
    assert("dcterms:modified"@.len() == 16);
    assert("dc:creator"@.len() == 10);
    assert("dc:contributor"@.len() == 14);
}

/// Inside an item, the parser reads the text of every field it knows: title,
/// link, description, HTML content, both dates, creators and contributors.
pub proof fn lemma_politico_reads_every_field(m: PoliticoModel)
    requires
        m.in_item,
    ensures
        <PoliticoItemState as FeedAssembler>::wants_text_spec(m, "title"@),
        <PoliticoItemState as FeedAssembler>::wants_text_spec(m, "link"@),
        <PoliticoItemState as FeedAssembler>::wants_text_spec(m, "description"@),
        <PoliticoItemState as FeedAssembler>::wants_text_spec(m, "content:encoded"@),
        <PoliticoItemState as FeedAssembler>::wants_text_spec(m, "pubDate"@),
        <PoliticoItemState as FeedAssembler>::wants_text_spec(m, "dcterms:modified"@),
        <PoliticoItemState as FeedAssembler>::wants_text_spec(m, "dc:creator"@),
        <PoliticoItemState as FeedAssembler>::wants_text_spec(m, "dc:contributor"@),
{
    lemma_politico_names_distinct();
}

/// An item with a title `a`, a link `l`, a description `d`, HTML content `c`
/// and a `pubDate` `p` becomes one item: title, description and content are
/// cleaned of a CDATA wrapper and surrounding whitespace, the link is kept
/// as read, the summary is the content unless it is blank, else the
/// description, and the date is read as RFC 2822 or RFC 3339, else the time
/// the item ended.
pub proof fn lemma_politico_item_fields(
    a: Seq<char>,
    l: Seq<char>,
    d: Seq<char>,
    c: Seq<char>,
    p: Seq<char>,
    now: Timestamp,
)
    ensures
        assembled_items::<PoliticoItemState>(
            PoliticoItemState::initial_model(),
            seq![
                FeedStep::Start { name: "item"@, text: None },
                FeedStep::Start { name: "title"@, text: Some(a) },
                FeedStep::Start { name: "link"@, text: Some(l) },
                FeedStep::Start { name: "description"@, text: Some(d) },
                FeedStep::Start { name: "content:encoded"@, text: Some(c) },
                FeedStep::Start { name: "pubDate"@, text: Some(p) },
                FeedStep::ItemEnd { now },
            ],
        ) == seq![
            RssItemView {
                source: "politico"@,
                title: strip_cdata_spec(a),
                link: l,
                summary: Some(
                    if trimmed(strip_cdata_spec(c)).len() != 0 {
                        strip_cdata_spec(c)
                    } else {
                        strip_cdata_spec(d)
                    },
                ),
                published_at: Some(dated_or_now(p, now)),
            },
        ],
{
    lemma_politico_names_distinct();
    let steps = seq![
        FeedStep::Start { name: "item"@, text: None },
        FeedStep::Start { name: "title"@, text: Some(a) },
        FeedStep::Start { name: "link"@, text: Some(l) },
        FeedStep::Start { name: "description"@, text: Some(d) },
        FeedStep::Start { name: "content:encoded"@, text: Some(c) },
        FeedStep::Start { name: "pubDate"@, text: Some(p) },
        FeedStep::ItemEnd { now },
    ];
    let m0 = PoliticoItemState::initial_model();
    assert(steps.take(1).drop_last() =~= steps.take(0));
    assert(steps.take(1).last() == steps[0]);
    assert(steps.take(2).drop_last() =~= steps.take(1));
    assert(steps.take(2).last() == steps[1]);
    assert(steps.take(3).drop_last() =~= steps.take(2));
    assert(steps.take(3).last() == steps[2]);
    assert(steps.take(4).drop_last() =~= steps.take(3));
    assert(steps.take(4).last() == steps[3]);
    assert(steps.take(5).drop_last() =~= steps.take(4));
    assert(steps.take(5).last() == steps[4]);
    assert(steps.take(6).drop_last() =~= steps.take(5));
    assert(steps.take(6).last() == steps[5]);
    assert(steps.take(7).drop_last() =~= steps.take(6));
    assert(steps.take(7).last() == steps[6]);
    assert(steps.take(7) =~= steps);
    assert(steps.take(0) =~= Seq::<FeedStep>::empty());
    let r0 = assemble_run::<PoliticoItemState>(m0, steps.take(0));
    let r1 = assemble_run::<PoliticoItemState>(m0, steps.take(1));
    let r2 = assemble_run::<PoliticoItemState>(m0, steps.take(2));
    let r3 = assemble_run::<PoliticoItemState>(m0, steps.take(3));
    let r4 = assemble_run::<PoliticoItemState>(m0, steps.take(4));
    let r5 = assemble_run::<PoliticoItemState>(m0, steps.take(5));
    let r6 = assemble_run::<PoliticoItemState>(m0, steps.take(6));
    let r7 = assemble_run::<PoliticoItemState>(m0, steps.take(7));
    assert(r7.1 =~= seq![
        RssItemView {
            source: "politico"@,
            title: strip_cdata_spec(a),
            link: l,
            summary: Some(
                if trimmed(strip_cdata_spec(c)).len() != 0 {
                    strip_cdata_spec(c)
                } else {
                    strip_cdata_spec(d)
                },
            ),
            published_at: Some(dated_or_now(p, now)),
        },
    ]);
}

/// An item with a description but no HTML content is summarised by its
/// description, cleaned of a CDATA wrapper and surrounding whitespace; with
/// no `pubDate` it is dated by `dcterms:modified`.
pub proof fn lemma_politico_description_summary(
    a: Seq<char>,
    l: Seq<char>,
    d: Seq<char>,
    p: Seq<char>,
    now: Timestamp,
)
    ensures
        assembled_items::<PoliticoItemState>(
            PoliticoItemState::initial_model(),
            seq![
                FeedStep::Start { name: "item"@, text: None },
                FeedStep::Start { name: "title"@, text: Some(a) },
                FeedStep::Start { name: "link"@, text: Some(l) },
                FeedStep::Start { name: "description"@, text: Some(d) },
                FeedStep::Start { name: "dcterms:modified"@, text: Some(p) },
                FeedStep::ItemEnd { now },
            ],
        ) == seq![
            RssItemView {
                source: "politico"@,
                title: strip_cdata_spec(a),
                link: l,
                summary: Some(strip_cdata_spec(d)),
                published_at: Some(dated_or_now(p, now)),
            },
        ],
{
    lemma_politico_names_distinct();
    let steps = seq![
        FeedStep::Start { name: "item"@, text: None },
        FeedStep::Start { name: "title"@, text: Some(a) },
        FeedStep::Start { name: "link"@, text: Some(l) },
        FeedStep::Start { name: "description"@, text: Some(d) },
        FeedStep::Start { name: "dcterms:modified"@, text: Some(p) },
        FeedStep::ItemEnd { now },
    ];
    assert(steps.take(1).drop_last() =~= steps.take(0));
    assert(steps.take(1).last() == steps[0]);
    assert(steps.take(2).drop_last() =~= steps.take(1));
    assert(steps.take(2).last() == steps[1]);
    assert(steps.take(3).drop_last() =~= steps.take(2));
    assert(steps.take(3).last() == steps[2]);
    assert(steps.take(4).drop_last() =~= steps.take(3));
    assert(steps.take(4).last() == steps[3]);
    assert(steps.take(5).drop_last() =~= steps.take(4));
    assert(steps.take(5).last() == steps[4]);
    assert(steps.take(6).drop_last() =~= steps.take(5));
    assert(steps.take(6).last() == steps[5]);
    assert(steps.take(6) =~= steps);
    assert(steps.take(0) =~= Seq::<FeedStep>::empty());
    let m0 = PoliticoItemState::initial_model();
    let r0 = assemble_run::<PoliticoItemState>(m0, steps.take(0));
    let r1 = assemble_run::<PoliticoItemState>(m0, steps.take(1));
    let r2 = assemble_run::<PoliticoItemState>(m0, steps.take(2));
    let r3 = assemble_run::<PoliticoItemState>(m0, steps.take(3));
    let r4 = assemble_run::<PoliticoItemState>(m0, steps.take(4));
    let r5 = assemble_run::<PoliticoItemState>(m0, steps.take(5));
    let r6 = assemble_run::<PoliticoItemState>(m0, steps.take(6));
    assert(r6.1 =~= seq![
        RssItemView {
            source: "politico"@,
            title: strip_cdata_spec(a),
            link: l,
            summary: Some(strip_cdata_spec(d)),
            published_at: Some(dated_or_now(p, now)),
        },
    ]);
}

/// An item with a title and a link but no date yields nothing.
pub proof fn lemma_politico_undated_item_dropped(a: Seq<char>, l: Seq<char>, now: Timestamp)
    ensures
        assembled_items::<PoliticoItemState>(
            PoliticoItemState::initial_model(),
            seq![
                FeedStep::Start { name: "item"@, text: None },
                FeedStep::Start { name: "title"@, text: Some(a) },
                FeedStep::Start { name: "link"@, text: Some(l) },
                FeedStep::ItemEnd { now },
            ],
        ).len() == 0,
{
    lemma_politico_names_distinct();
    let steps = seq![
        FeedStep::Start { name: "item"@, text: None },
        FeedStep::Start { name: "title"@, text: Some(a) },
        FeedStep::Start { name: "link"@, text: Some(l) },
        FeedStep::ItemEnd { now },
    ];
    assert(steps.take(1).drop_last() =~= steps.take(0));
    assert(steps.take(1).last() == steps[0]);
    assert(steps.take(2).drop_last() =~= steps.take(1));
    assert(steps.take(2).last() == steps[1]);
    assert(steps.take(3).drop_last() =~= steps.take(2));
    assert(steps.take(3).last() == steps[2]);
    assert(steps.take(4).drop_last() =~= steps.take(3));
    assert(steps.take(4).last() == steps[3]);
    assert(steps.take(4) =~= steps);
    assert(steps.take(0) =~= Seq::<FeedStep>::empty());
    let m0 = PoliticoItemState::initial_model();
    let r0 = assemble_run::<PoliticoItemState>(m0, steps.take(0));
    let r1 = assemble_run::<PoliticoItemState>(m0, steps.take(1));
    let r2 = assemble_run::<PoliticoItemState>(m0, steps.take(2));
    let r3 = assemble_run::<PoliticoItemState>(m0, steps.take(3));
    let r4 = assemble_run::<PoliticoItemState>(m0, steps.take(4));
    assert(r4.1.len() == 0);
}

} // verus!
