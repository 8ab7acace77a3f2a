//! A pull cursor over an XML document, backed by `quick_xml::Reader`.

use quick_xml::events::Event;
use quick_xml::name::QName;
use crate::rss::opt_view;
use vstd::prelude::*;
use vstd::string::StringSliceAdditionalSpecFns;

verus! {

#[verifier::external_type_specification]
#[verifier::external_body]
#[verifier::reject_recursive_types(R)]
pub struct ExXmlReader<R>(quick_xml::Reader<R>);

/// The events of the document that the feed parsers tell apart.
#[derive(Clone, PartialEq, Eq, Debug)]
pub enum XmlEvent {
    /// An opening tag, with its qualified name (`content:encoded`, `item`, ...).
    Start(String),
    /// A closing tag, with its qualified name.
    End(String),
    /// The end of the document.
    Eof,
    /// Any other event (text, self-closing tag, comment, declaration, ...).
    Other,
}

/// What an event of the reader says.
pub enum XmlEventView {
    Start(Seq<char>),
    End(Seq<char>),
    Eof,
    Other,
}

impl View for XmlEvent {
    type V = XmlEventView;

    open spec fn view(&self) -> XmlEventView {
        match self {
            XmlEvent::Start(n) => XmlEventView::Start(n@),
            XmlEvent::End(n) => XmlEventView::End(n@),
            XmlEvent::Eof => XmlEventView::Eof,
            XmlEvent::Other => XmlEventView::Other,
        }
    }
}

/// The event that `quick_xml::Reader::read_event_into` yields when reading
/// the document `doc` from byte position `pos` (as `buffer_position` reports
/// it), with the position after it; none when the reader reports an error.
/// The reader's state at a position it reaches depends on the document
/// alone: `read_text` advances through the same event loop, and every event
/// but the end of the document moves the position forward.
pub uninterp spec fn xml_next(doc: Seq<char>, pos: nat) -> Option<(XmlEventView, nat)>;

/// The raw text that `quick_xml::Reader::read_text` yields for an element
/// named `name` whose opening tag ends at byte position `pos` of `doc` (none
/// when it reports an error), with the position after the call.
pub uninterp spec fn xml_text(doc: Seq<char>, pos: nat, name: Seq<char>) -> (Option<Seq<char>>, nat);

/// A reader positioned inside an XML text.
pub(crate) struct XmlCursor<'a> {
    reader: quick_xml::Reader<&'a [u8]>,
    doc: &'a str,
    pos: u64,
    len: u64,
}

/// The document a cursor reads, its byte position and the document's length
/// in bytes.
pub struct XmlCursorView {
    pub doc: Seq<char>,
    pub pos: nat,
    pub len: nat,
}

impl<'a> View for XmlCursor<'a> {
    type V = XmlCursorView;

    closed spec fn view(&self) -> XmlCursorView {
        XmlCursorView { doc: self.doc@, pos: self.pos as nat, len: self.len as nat }
    }
}

impl<'a> XmlCursor<'a> {
    /// Calls `quick_xml::Reader::from_str`. Claimed: the reader is at the
    /// start of `xml`.
    #[verifier::external_body]
    pub(crate) fn open(xml: &'a str) -> (c: XmlCursor<'a>)
        ensures
            c@.doc == xml@,
            c@.pos == 0,
            c@.len == xml.spec_bytes().len(),
    {
        XmlCursor { reader: quick_xml::Reader::from_str(xml), doc: xml, pos: 0, len: xml.len() as u64 }
    }

    /// Calls `quick_xml::Reader::read_event_into` and keeps the name of
    /// opening and closing tags. Claimed: the event (or the failure) and the
    /// position after it are the named result for the document and the
    /// position before the call; the position never passes the end of the
    /// document, and every event other than the end of the document
    /// consumes input. The reader's error message is not described.
    #[verifier::external_body]
    pub(crate) fn next_event(&mut self, buf: &mut Vec<u8>) -> (r: Result<XmlEvent, String>)
        ensures
            final(self)@.doc == old(self)@.doc,
            final(self)@.len == old(self)@.len,
            r is Err <==> xml_next(old(self)@.doc, old(self)@.pos) is None,
            r matches Ok(e) ==> xml_next(old(self)@.doc, old(self)@.pos) == Some(
                (e@, final(self)@.pos),
            ),
            final(self)@.pos <= final(self)@.len,
            r matches Ok(e) && !(e is Eof) ==> old(self)@.pos < final(self)@.pos,
    {
        let r = match self.reader.read_event_into(buf) {
            Ok(Event::Start(e)) => Ok(XmlEvent::Start(e.name().as_ref().to_owned())),
            Ok(Event::End(e)) => Ok(XmlEvent::End(e.name().as_ref().to_owned())),
            Ok(Event::Eof) => Ok(XmlEvent::Eof),
            Ok(_) => Ok(XmlEvent::Other),
            Err(err) => Err(err.to_string()),
        };
        self.pos = self.reader.buffer_position();
        r
    }

    /// Calls `quick_xml::Reader::read_text` with the closing tag `name` and
    /// keeps the raw text when it succeeds. Claimed: the text (or its
    /// absence) and the position after the call are the named result; the
    /// reader never moves back nor past the end of the document.
    #[verifier::external_body]
    pub(crate) fn element_text(&mut self, name: &str) -> (r: Option<String>)
        ensures
            final(self)@.doc == old(self)@.doc,
            final(self)@.len == old(self)@.len,
            (opt_view(r), final(self)@.pos) == xml_text(old(self)@.doc, old(self)@.pos, name@),
            old(self)@.pos <= final(self)@.pos <= final(self)@.len,
    {
        let r = self.reader.read_text(QName(name)).ok().map(
            |t| t.into_inner().into_owned(),
        );
        self.pos = self.reader.buffer_position();
        r
    }
}

} // verus!
