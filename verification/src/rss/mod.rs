//! Normalised RSS items, CDATA cleaning, and the feed-parsing loop shared by
//! the source-specific parsers.

pub mod politico;
pub mod wsj;

use crate::text::{is_white_space, str_equal, trim, trim_end_spec, trim_start_spec, trimmed};
use crate::time::{now_utc, Timestamp};
use crate::xml::{xml_next, xml_text, XmlCursor, XmlEvent, XmlEventView};
use vstd::prelude::*;
use vstd::string::StrSliceExecFns;
use vstd::string::StringExecFns;
use vstd::string::StringSliceAdditionalSpecFns;

verus! {

/// An item of a news feed, in the shape the database stores.
#[derive(Clone, PartialEq, Eq, Debug)]
pub struct RssItem {
    pub source: String,
    pub title: String,
    pub link: String,
    pub summary: Option<String>,
    pub published_at: Option<Timestamp>,
}

/// What an item says, as character sequences.
pub struct RssItemView {
    pub source: Seq<char>,
    pub title: Seq<char>,
    pub link: Seq<char>,
    pub summary: Option<Seq<char>>,
    pub published_at: Option<Timestamp>,
}

/// The view of an optional string.
pub open spec fn opt_view(o: Option<String>) -> Option<Seq<char>> {
    match o {
        Some(s) => Some(s@),
        None => None,
    }
}

impl View for RssItem {
    type V = RssItemView;

    open spec fn view(&self) -> RssItemView {
        RssItemView {
            source: self.source@,
            title: self.title@,
            link: self.link@,
            summary: opt_view(self.summary),
            published_at: self.published_at,
        }
    }
}

/// The views of a sequence of items.
pub open spec fn item_views(items: Seq<RssItem>) -> Seq<RssItemView> {
    items.map_values(|i: RssItem| i@)
}

/// The view of an optional item.
pub open spec fn opt_item_view(o: Option<RssItem>) -> Option<RssItemView> {
    match o {
        Some(i) => Some(i@),
        None => None,
    }
}

impl RssItem {
    pub fn new(
        source: &str,
        title: String,
        link: String,
        summary: Option<String>,
        published_at: Option<Timestamp>,
    ) -> (item: RssItem)
        ensures
            item@ == (RssItemView {
                source: source@,
                title: title@,
                link: link@,
                summary: opt_view(summary),
                published_at,
            }),
    {
        RssItem { source: source.to_owned(), title, link, summary, published_at }
    }
}

/// The identifier an item is stored under, which makes storing it twice a
/// no-op: its source and its link, joined by `:`.
pub open spec fn item_id_spec(item: RssItemView) -> Seq<char> {
    item.source + ":"@ + item.link
}

impl RssItem {
    /// The identifier the item is stored under.
    pub fn id(&self) -> (id: String)
        ensures
            id@ == item_id_spec(self@),
    {
        let mut id = String::from_str(self.source.as_str());
        id.append(":");
        id.append(self.link.as_str());
        id
    }
}

/// The stored identifier tells items of a source apart exactly by their
/// links, and starts with the item's source followed by `:`.
pub proof fn lemma_item_id_identifies(a: RssItemView, b: RssItemView)
    ensures
        a.source == b.source ==> (item_id_spec(a) == item_id_spec(b) <==> a.link == b.link),
        has_prefix(item_id_spec(a), a.source + ":"@),
        has_suffix(item_id_spec(a), a.link),
{
    reveal_strlit(":");
    let n: int = a.source.len() as int + 1;
    let ia = item_id_spec(a);
    let ib = item_id_spec(b);
    assert(ia.subrange(0, n) =~= a.source + ":"@);
    assert(ia.subrange(ia.len() - a.link.len(), ia.len() as int) =~= a.link);
    if a.source == b.source && ia == ib {
        assert(ia.subrange(n, ia.len() as int) =~= a.link);
        assert(ib.subrange(n, ib.len() as int) =~= b.link);
    }
}

/// Why a feed could not be parsed.
#[derive(Clone, PartialEq, Eq, Debug)]
pub enum RssParseError {
    /// The XML reader failed; its message.
    Xml(String),
    /// A date could not be read; a description.
    InvalidDate(String),
}

/// Whether `s` begins with `p`.
pub open spec fn has_prefix(s: Seq<char>, p: Seq<char>) -> bool {
    p.len() <= s.len() && s.subrange(0, p.len() as int) == p
}

/// Whether `s` ends with `p`.
pub open spec fn has_suffix(s: Seq<char>, p: Seq<char>) -> bool {
    p.len() <= s.len() && s.subrange(s.len() - p.len(), s.len() as int) == p
}

pub open spec fn cdata_open() -> Seq<char> {
    "<![CDATA["@
}

pub open spec fn cdata_close() -> Seq<char> {
    "]]>"@
}

/// The text of a field: trimmed, and when the trimmed text is one CDATA
/// section, that section's content, trimmed again.
pub open spec fn strip_cdata_spec(s: Seq<char>) -> Seq<char> {
    let t = trimmed(s);
    let rest = t.subrange(cdata_open().len() as int, t.len() as int);
    if has_prefix(t, cdata_open()) && has_suffix(rest, cdata_close()) {
        trimmed(rest.subrange(0, rest.len() - cdata_close().len()))
    } else {
        t
    }
}

/// A field whose whole text is one CDATA section is cleaned to that
/// section's content without surrounding whitespace; a text that is not so
/// wrapped only loses its surrounding whitespace.
pub proof fn lemma_strip_cdata_unwraps(x: Seq<char>)
    ensures
        strip_cdata_spec("<![CDATA["@ + x + "]]>"@) == trimmed(x),
        !has_prefix(trimmed(x), "<![CDATA["@) ==> strip_cdata_spec(x) == trimmed(x),
{
    reveal_strlit("<![CDATA[");
    reveal_strlit("]]>");
    let w = "<![CDATA["@ + x + "]]>"@;
    assert(w[0] == '<');
    assert(!is_white_space(w[0]));
    assert(trim_start_spec(w) == w);
    assert(w.last() == '>');
    assert(trim_end_spec(w) == w);
    assert(trimmed(w) == w);
    assert(w.subrange(0, 9) =~= "<![CDATA["@);
    let rest = w.subrange(9, w.len() as int);
    assert(rest =~= x + "]]>"@);
    assert(rest.subrange(rest.len() - 3, rest.len() as int) =~= "]]>"@);
    assert(rest.subrange(0, rest.len() - 3) =~= x);
}

fn starts_with(s: &str, p: &str) -> (b: bool)
    ensures
        b == has_prefix(s@, p@),
{
    let n = s.unicode_len();
    let m = p.unicode_len();
    if m > n {
        return false;
    }
    str_equal(s.substring_char(0, m), p)
}

fn ends_with(s: &str, p: &str) -> (b: bool)
    ensures
        b == has_suffix(s@, p@),
{
    let n = s.unicode_len();
    let m = p.unicode_len();
    if m > n {
        return false;
    }
    str_equal(s.substring_char(n - m, n), p)
}

/// Cleans the text of a feed field: surrounding whitespace goes, and a
/// CDATA wrapper around the whole text is taken off.
pub fn strip_cdata(s: &str) -> (r: String)
    ensures
        r@ == strip_cdata_spec(s@),
{
    let t = trim(s);
    let open = "<![CDATA[";
    let close = "]]>";
    let n = t.unicode_len();
    let m = open.unicode_len();
    if starts_with(t, open) {
        let rest = t.substring_char(m, n);
        if ends_with(rest, close) {
            let k = rest.unicode_len() - close.unicode_len();
            let inner = rest.substring_char(0, k);
            return trim(inner).to_owned();
        }
    }
    t.to_owned()
}

/// Applies `strip_cdata` to a text that may be absent.
pub fn strip_cdata_opt(s: &Option<String>) -> (r: Option<String>)
    ensures
        opt_view(r) == match s {
            Some(t) => Some(strip_cdata_spec(t@)),
            None => None::<Seq<char>>,
        },
{
    match s {
        Some(t) => Some(strip_cdata(t.as_str())),
        None => None,
    }
}

/// The view of `strip_cdata` over an optional text.
pub open spec fn strip_cdata_opt_spec(s: Option<Seq<char>>) -> Option<Seq<char>> {
    match s {
        Some(t) => Some(strip_cdata_spec(t)),
        None => None,
    }
}

/// One step of reading a feed, as the item assemblers see it.
#[derive(Clone, PartialEq, Eq, Debug)]
pub enum FeedEvent {
    /// An opening tag; `text` is the element's raw text when the assembler
    /// asked for it and the reader could give it.
    Start { name: String, text: Option<String> },
    /// The closing tag of an `item`, with the instant to fall back on when
    /// the item's date cannot be used.
    ItemEnd { now: Timestamp },
    /// Anything else.
    Other,
}

/// The view of a feed event.
pub enum FeedStep {
    Start { name: Seq<char>, text: Option<Seq<char>> },
    ItemEnd { now: Timestamp },
    Other,
}

impl View for FeedEvent {
    type V = FeedStep;

    open spec fn view(&self) -> FeedStep {
        match self {
            FeedEvent::Start { name, text } => FeedStep::Start { name: name@, text: opt_view(*text) },
            FeedEvent::ItemEnd { now } => FeedStep::ItemEnd { now: *now },
            FeedEvent::Other => FeedStep::Other,
        }
    }
}

/// The views of a sequence of feed events.
pub open spec fn event_views(events: Seq<FeedEvent>) -> Seq<FeedStep> {
    events.map_values(|e: FeedEvent| e@)
}

/// A state machine that turns the events of one feed format into items.
pub trait FeedAssembler: Sized {
    type Model;

    spec fn model(&self) -> Self::Model;

    /// Whether, in state `m`, an opening tag `name` is an element whose text
    /// the assembler reads.
    spec fn wants_text_spec(m: Self::Model, name: Seq<char>) -> bool;

    /// The state after an event.
    spec fn next_spec(m: Self::Model, step: FeedStep) -> Self::Model;

    /// The item that an event completes, if any.
    spec fn emit_spec(m: Self::Model, step: FeedStep) -> Option<RssItemView>;

    fn wants_text(&self, name: &str) -> (b: bool)
        ensures
            b == Self::wants_text_spec(self.model(), name@),
    ;

    fn apply(&mut self, event: FeedEvent) -> (out: Option<RssItem>)
        ensures
            final(self).model() == Self::next_spec(old(self).model(), event@),
            opt_item_view(out) == Self::emit_spec(old(self).model(), event@),
    ;

    /// The instant that comes with the end of an item shapes only the item
    /// it completes, never the state that follows.
    proof fn lemma_item_end_state_ignores_time(m: Self::Model, a: Timestamp, b: Timestamp)
        ensures
            Self::next_spec(m, FeedStep::ItemEnd { now: a }) == Self::next_spec(
                m,
                FeedStep::ItemEnd { now: b },
            ),
    ;
}

/// The state and the items after a sequence of events, from state `m`.
pub open spec fn assemble_run<A: FeedAssembler>(m: A::Model, steps: Seq<FeedStep>) -> (
    A::Model,
    Seq<RssItemView>,
)
    decreases steps.len(),
{
    if steps.len() == 0 {
        (m, Seq::empty())
    } else {
        let (m1, items) = assemble_run::<A>(m, steps.drop_last());
        let s = steps.last();
        (
            A::next_spec(m1, s),
            match A::emit_spec(m1, s) {
                Some(i) => items.push(i),
                None => items,
            },
        )
    }
}

/// The items that a sequence of events yields, from state `m`.
pub open spec fn assembled_items<A: FeedAssembler>(m: A::Model, steps: Seq<FeedStep>) -> Seq<
    RssItemView,
> {
    assemble_run::<A>(m, steps).1
}

/// Runs an assembler over a sequence of events, in order.
pub fn assemble_events<A: FeedAssembler>(assembler: A, events: Vec<FeedEvent>) -> (items: Vec<
    RssItem,
>)
    ensures
        item_views(items@) == assembled_items::<A>(assembler.model(), event_views(events@)),
{
    let ghost m0 = assembler.model();
    let mut state = assembler;
    let mut items: Vec<RssItem> = Vec::new();
    let ghost all = event_views(events@);
    let mut pending = events;
    let n = pending.len();
    let mut rest: Vec<FeedEvent> = Vec::new();
    while pending.len() > 0
        invariant
            n == all.len(),
            pending@.len() + rest@.len() == n,
            forall|k: int| 0 <= k < pending@.len() ==> #[trigger] pending@[k]@ == all[k],
            forall|k: int| 0 <= k < rest@.len() ==> #[trigger] rest@[k]@ == all[n - 1 - k],
        decreases pending@.len(),
    {
        let e = pending.pop().unwrap();
        rest.push(e);
    }
    let ghost mut done: Seq<FeedStep> = Seq::empty();
    let mut i: usize = 0;
    while i < n
        invariant
            n == all.len(),
            rest@.len() == n - i,
            i <= n,
            forall|k: int| 0 <= k < rest@.len() ==> #[trigger] rest@[k]@ == all[n - 1 - k],
            done == all.take(i as int),
            (state.model(), item_views(items@)) == assemble_run::<A>(m0, done),
        decreases n - i,
    {
        let ev = rest.pop().unwrap();
        let ghost step = ev@;
        assert(step == all[i as int]);
        let out = state.apply(ev);
        match out {
            Some(item) => {
                items.push(item);
            },
            None => {},
        }
        proof {
            let next_done = all.take(i + 1);
            assert(next_done.drop_last() =~= done);
            assert(next_done.last() == step);
            assert(item_views(items@) =~= assemble_run::<A>(m0, next_done).1);
            done = next_done;
        }
        i = i + 1;
    }
    assert(done =~= all);
    items
}

/// The step an assembler in state `m` sees for the reader event `ev`, which
/// left the reader at `pos`: an opening tag comes with the element's text
/// when the assembler wants it (read from `pos`), and the closing tag of an
/// `item` with the first of the clock readings `nows`. Also the reader's
/// position and the clock readings left after the step.
pub open spec fn feed_step<A: FeedAssembler>(
    doc: Seq<char>,
    pos: nat,
    m: A::Model,
    ev: XmlEventView,
    nows: Seq<Timestamp>,
) -> (FeedStep, nat, Seq<Timestamp>) {
    match ev {
        XmlEventView::Start(name) => if A::wants_text_spec(m, name) {
            let (text, after) = xml_text(doc, pos, name);
            (FeedStep::Start { name, text }, after, nows)
        } else {
            (FeedStep::Start { name, text: None }, pos, nows)
        },
        XmlEventView::End(name) => if name == "item"@ {
            (FeedStep::ItemEnd { now: nows[0] }, pos, nows.drop_first())
        } else {
            (FeedStep::Other, pos, nows)
        },
        _ => (FeedStep::Other, pos, nows),
    }
}

/// `rest` with `item`, if any, in front; a failure stays a failure.
pub open spec fn with_item(item: Option<RssItemView>, rest: Option<Seq<RssItemView>>) -> Option<
    Seq<RssItemView>,
> {
    match rest {
        Some(r) => match item {
            Some(i) => Some(seq![i] + r),
            None => Some(r),
        },
        None => None,
    }
}

/// `rest` with `items` in front; a failure stays a failure.
pub open spec fn with_items(items: Seq<RssItemView>, rest: Option<Seq<RssItemView>>) -> Option<
    Seq<RssItemView>,
> {
    match rest {
        Some(r) => Some(items + r),
        None => None,
    }
}

/// The items an assembler in state `m` yields from the document `doc` read
/// from byte position `pos` to its end (`len` bytes in all), the closing
/// tags of items taking their instants from `nows` in turn; none when the
/// reader reports an error.
pub open spec fn xml_items<A: FeedAssembler>(
    doc: Seq<char>,
    len: nat,
    pos: nat,
    m: A::Model,
    nows: Seq<Timestamp>,
) -> Option<Seq<RssItemView>>
    decreases len - pos,
{
    match xml_next(doc, pos) {
        None => None,
        Some((ev, p1)) => if ev is Eof {
            Some(Seq::empty())
        } else if !(pos < p1 <= len) {
            None
        } else {
            let (step, p2, rest) = feed_step::<A>(doc, p1, m, ev, nows);
            if !(p1 <= p2 <= len) {
                None
            } else {
                with_item(A::emit_spec(m, step), xml_items::<A>(doc, len, p2, A::next_spec(m, step), rest))
            }
        },
    }
}

/// Only the closing tag of an `item` completes an item, and it takes the
/// next clock reading; other closing tags and other events pass unread; an
/// opening tag carries the element's text exactly when the assembler wants
/// it.
pub proof fn lemma_feed_step_roles<A: FeedAssembler>(
    doc: Seq<char>,
    pos: nat,
    m: A::Model,
    name: Seq<char>,
    nows: Seq<Timestamp>,
)
    ensures
        feed_step::<A>(doc, pos, m, XmlEventView::End("item"@), nows) == (
            FeedStep::ItemEnd { now: nows[0] },
            pos,
            nows.drop_first(),
        ),
        name != "item"@ ==> feed_step::<A>(doc, pos, m, XmlEventView::End(name), nows) == (
            FeedStep::Other,
            pos,
            nows,
        ),
        feed_step::<A>(doc, pos, m, XmlEventView::Other, nows) == (FeedStep::Other, pos, nows),
        !A::wants_text_spec(m, name) ==> feed_step::<A>(doc, pos, m, XmlEventView::Start(name), nows)
            == (FeedStep::Start { name, text: None }, pos, nows),
        A::wants_text_spec(m, name) ==> feed_step::<A>(doc, pos, m, XmlEventView::Start(name), nows)
            == (FeedStep::Start { name, text: xml_text(doc, pos, name).0 }, xml_text(doc, pos, name).1, nows),
{
}

/// Whether the reader fails on the document does not depend on the clock.
proof fn lemma_failure_ignores_time<A: FeedAssembler>(
    doc: Seq<char>,
    len: nat,
    pos: nat,
    m: A::Model,
    a: Seq<Timestamp>,
    b: Seq<Timestamp>,
)
    ensures
        xml_items::<A>(doc, len, pos, m, a) is None <==> xml_items::<A>(doc, len, pos, m, b) is None,
    decreases len - pos,
{
    match xml_next(doc, pos) {
        None => {},
        Some((ev, p1)) => {
            if !(ev is Eof) && pos < p1 <= len {
                let (sa, p2, ra) = feed_step::<A>(doc, p1, m, ev, a);
                let (sb, q2, rb) = feed_step::<A>(doc, p1, m, ev, b);
                assert(p2 == q2);
                if p1 <= p2 <= len {
                    if sa is ItemEnd {
                        A::lemma_item_end_state_ignores_time(m, sa->now, sb->now);
                    }
                    assert(A::next_spec(m, sa) == A::next_spec(m, sb));
                    lemma_failure_ignores_time::<A>(doc, len, p2, A::next_spec(m, sa), ra, rb);
                }
            }
        },
    }
}

/// Reads an XML document and runs an assembler over its events. Opening tags
/// whose text the assembler wants have that text read; each closing `item`
/// tag comes with the current time. The parse fails exactly when the reader
/// reports an error; otherwise the items are those the assembler derives
/// from the document's events, for the instants the clock gave.
pub fn assemble_xml<A: FeedAssembler>(assembler: A, xml: &str) -> (r: Result<
    Vec<RssItem>,
    RssParseError,
>)
    ensures
        r is Err <==> forall|nows: Seq<Timestamp>|
            (#[trigger] xml_items::<A>(xml@, xml.spec_bytes().len(), 0, assembler.model(), nows)) is None,
        r matches Ok(items) ==> exists|nows: Seq<Timestamp>|
            #[trigger] xml_items::<A>(xml@, xml.spec_bytes().len(), 0, assembler.model(), nows)
                == Some(item_views(items@)),
        r matches Ok(items) ==> exists|steps: Seq<FeedStep>|
            item_views(items@) == #[trigger] assembled_items::<A>(assembler.model(), steps),
        r matches Err(e) ==> e is Xml,
{
    let ghost m0 = assembler.model();
    let ghost len = xml.spec_bytes().len();
    let ghost doc = xml@;
    let mut state = assembler;
    let mut cursor = XmlCursor::open(xml);
    let mut buf: Vec<u8> = Vec::new();
    let mut items: Vec<RssItem> = Vec::new();
    let ghost mut past: Seq<Timestamp> = Seq::empty();
    let ghost mut done: Seq<FeedStep> = Seq::empty();
    assert forall|f: Seq<Timestamp>|
        #[trigger] xml_items::<A>(doc, len, 0, m0, past + f) == with_items(
            item_views(items@),
            xml_items::<A>(doc, len, cursor@.pos, state.model(), f),
        ) by {
        assert(past + f =~= f);
        assert(item_views(items@) =~= Seq::<RssItemView>::empty());
        match xml_items::<A>(doc, len, 0, m0, f) {
            Some(r) => { assert(Seq::<RssItemView>::empty() + r =~= r); },
            None => {},
        }
    }
    loop
        invariant
            doc == xml@,
            len == xml.spec_bytes().len(),
            m0 == assembler.model(),
            cursor@.doc == doc,
            cursor@.len == len,
            cursor@.pos <= len,
            (state.model(), item_views(items@)) == assemble_run::<A>(m0, done),
            forall|f: Seq<Timestamp>|
                #[trigger] xml_items::<A>(doc, len, 0, m0, past + f) == with_items(
                    item_views(items@),
                    xml_items::<A>(doc, len, cursor@.pos, state.model(), f),
                ),
        decreases len - cursor@.pos,
    {
        let ghost pos = cursor@.pos;
        let ghost m = state.model();
        let next = cursor.next_event(&mut buf);
        let ev = match next {
            Ok(ev) => ev,
            Err(message) => {
                proof {
                    assert(xml_next(doc, pos) is None);
                    assert(xml_items::<A>(doc, len, pos, m, Seq::empty()) is None);
                    assert(xml_items::<A>(doc, len, 0, m0, past + Seq::empty()) is None);
                    assert forall|nows: Seq<Timestamp>|
                        (#[trigger] xml_items::<A>(doc, len, 0, m0, nows)) is None by {
                        assert(past + Seq::<Timestamp>::empty() =~= past);
                        lemma_failure_ignores_time::<A>(doc, len, 0, m0, past, nows);
                    }
                }
                return Err(RssParseError::Xml(message));
            },
        };
        let ghost p1 = cursor@.pos;
        if let XmlEvent::Eof = ev {
            proof {
                assert(xml_next(doc, pos) == Some((XmlEventView::Eof, p1)));
                assert(xml_items::<A>(doc, len, pos, m, Seq::empty()) == Some(Seq::<RssItemView>::empty()));
                assert(xml_items::<A>(doc, len, 0, m0, past + Seq::empty()) == Some(
                    item_views(items@) + Seq::<RssItemView>::empty(),
                ));
                assert(past + Seq::<Timestamp>::empty() =~= past);
                assert(item_views(items@) + Seq::<RssItemView>::empty() =~= item_views(items@));
                assert(xml_items::<A>(doc, len, 0, m0, past) == Some(item_views(items@)));
                assert(item_views(items@) == assembled_items::<A>(m0, done));
            }
            return Ok(items);
        }
        let ghost ev_view = ev@;
        let ghost item_end = ev_view matches XmlEventView::End(n) && n == "item"@;
        let event = match ev {
            XmlEvent::Start(name) => {
                let text = if state.wants_text(name.as_str()) {
                    cursor.element_text(name.as_str())
                } else {
                    None
                };
                FeedEvent::Start { name, text }
            },
            XmlEvent::End(name) => {
                if str_equal(name.as_str(), "item") {
                    FeedEvent::ItemEnd { now: now_utc() }
                } else {
                    FeedEvent::Other
                }
            },
            _ => FeedEvent::Other,
        };
        let ghost step = event@;
        let ghost p2 = cursor@.pos;
        let ghost before = item_views(items@);
        let out = state.apply(event);
        match out {
            Some(item) => {
                items.push(item);
            },
            None => {},
        }
        proof {
            let emitted = A::emit_spec(m, step);
            assert(item_views(items@) =~= match emitted {
                Some(i) => before.push(i),
                None => before,
            });
            let new_past = if item_end {
                past.push(step->now)
            } else {
                past
            };
            assert forall|f: Seq<Timestamp>|
                #[trigger] xml_items::<A>(doc, len, 0, m0, new_past + f) == with_items(
                    item_views(items@),
                    xml_items::<A>(doc, len, p2, state.model(), f),
                ) by {
                let g = if item_end {
                    seq![step->now] + f
                } else {
                    f
                };
                assert(new_past + f =~= past + g);
                assert(xml_items::<A>(doc, len, 0, m0, past + g) == with_items(
                    before,
                    xml_items::<A>(doc, len, pos, m, g),
                ));
                if item_end {
                    assert(g[0] == step->now);
                    assert(g.drop_first() =~= f);
                }
                assert(feed_step::<A>(doc, p1, m, ev_view, g) == (step, p2, f));
                match xml_items::<A>(doc, len, p2, state.model(), f) {
                    Some(r) => {
                        match emitted {
                            Some(i) => {
                                assert(before + (seq![i] + r) =~= before.push(i) + r);
                            },
                            None => {},
                        }
                    },
                    None => {},
                }
            }
            past = new_past;
            let next_done = done.push(step);
            assert(next_done.drop_last() =~= done);
            assert(item_views(items@) =~= assemble_run::<A>(m0, next_done).1);
            done = next_done;
        }
        buf.clear();
    }
}

/// A copy of an optional string.
pub fn clone_opt(s: &Option<String>) -> (r: Option<String>)
    ensures
        opt_view(r) == opt_view(*s),
{
    match s {
        Some(t) => Some(t.clone()),
        None => None,
    }
}

/// Whether a step opens an `item` element.
pub open spec fn opens_item(step: FeedStep) -> bool {
    match step {
        FeedStep::Start { name, text } => name == "item"@,
        _ => false,
    }
}

} // verus!
