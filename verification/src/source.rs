//! The pull source of parse events, kept behind a short list of trusted
//! items that state what the tokenizer is relied on for.

use vstd::prelude::*;
use xml::reader::EventReader;
use xml::reader::ParserConfig;
use xml::reader::XmlEvent;
use crate::event::Attribute;
use crate::event::Event;
use crate::event::EventView;
use crate::event::Name;

verus! {

/// An event as the tokenizer hands it out, `xml::reader::XmlEvent`.
#[verifier::external_type_specification]
#[verifier::external_body]
pub struct ExXmlEvent(XmlEvent);

/// A tokenizer reading one in-memory document: an `xml::reader::EventReader`
/// over a byte slice.
#[verifier::external_body]
pub struct EventSource<'a> {
    reader: EventReader<&'a [u8]>,
}

/// What a tokenizer event holds, as far as a decoder reads it.
pub uninterp spec fn seen(raw: XmlEvent) -> EventView;

/// The events that the source will still deliver, in order, before it
/// reaches its end.
pub uninterp spec fn upcoming(source: EventSource) -> Seq<EventView>;

/// How the source ends once `upcoming` is used up: with a failure, given by
/// its message, or (where this is `None`) with the end of the document.
pub uninterp spec fn ending(source: EventSource) -> Option<Seq<char>>;

/// The events of a whole document and how it ends, for the bytes of the
/// document and the five settings of the tokenizer.
pub uninterp spec fn tokenized(
    bytes: Seq<u8>,
    trim_whitespace: bool,
    whitespace_to_characters: bool,
    cdata_to_characters: bool,
    ignore_comments: bool,
    coalesce_characters: bool,
) -> (Seq<EventView>, Option<Seq<char>>);

/// `xml::reader::EventReader::new_with_config`, with a `ParserConfig` that
/// differs from the default in the five settings given. Trusted: what the
/// new source delivers depends on the bytes and the settings alone.
#[verifier::external_body]
pub(crate) fn open<'a>(
    bytes: &'a [u8],
    trim_whitespace: bool,
    whitespace_to_characters: bool,
    cdata_to_characters: bool,
    ignore_comments: bool,
    coalesce_characters: bool,
) -> (source: EventSource<'a>)
    ensures
        (upcoming(source), ending(source)) == tokenized(
            bytes@,
            trim_whitespace,
            whitespace_to_characters,
            cdata_to_characters,
            ignore_comments,
            coalesce_characters,
        ),
{
    let config = ParserConfig::new()
        .trim_whitespace(trim_whitespace)
        .whitespace_to_characters(whitespace_to_characters)
        .cdata_to_characters(cdata_to_characters)
        .ignore_comments(ignore_comments)
        .coalesce_characters(coalesce_characters);
    EventSource { reader: EventReader::new_with_config(bytes, config) }
}

/// `xml::reader::EventReader::next`. Trusted: each call delivers the first
/// of the upcoming events, which is no `EndDocument`, and leaves the others;
/// once none is left, every call returns the same final result, which is a
/// failure or `EndDocument`. A failure is handed on as its message.
#[verifier::external_body]
pub(crate) fn pull(source: &mut EventSource) -> (result: Result<XmlEvent, String>)
    ensures
        ending(*final(source)) == ending(*old(source)),
        upcoming(*old(source)).len() > 0 ==> {
            &&& result matches Ok(raw)
            &&& seen(raw) == upcoming(*old(source))[0]
            &&& !(seen(raw) is EndDocument)
            &&& upcoming(*final(source)) == upcoming(*old(source)).skip(1)
        },
        upcoming(*old(source)).len() == 0 ==> {
            &&& upcoming(*final(source)).len() == 0
            &&& match ending(*old(source)) {
                Some(failure) => result matches Err(message) && message@ == failure,
                None => result matches Ok(raw) && seen(raw) == EventView::EndDocument,
            }
        },
{
    source.reader.next().map_err(|failure| failure.to_string())
}

/// Moves what a tokenizer event holds into an [`Event`]: the variant, the
/// names without their prefixes, the attributes in their order, the text of
/// character data. Trusted to be that and no more.
#[verifier::external_body]
pub(crate) fn lower(raw: XmlEvent) -> (event: Event)
    ensures
        event@ == seen(raw),
{
    match raw {
        XmlEvent::StartElement { name, attributes, .. } => Event::StartElement {
            name: Name::new(name.local_name, name.namespace),
            attributes: attributes.into_iter().map(|a| Attribute::new(Name::new(a.name.local_name, a.name.namespace), a.value)).collect(),
        },
        XmlEvent::EndElement { name } => Event::EndElement { name: Name::new(name.local_name, name.namespace) },
        XmlEvent::Characters(text) => Event::Characters(text),
        XmlEvent::CData(text) => Event::CData(text),
        XmlEvent::Whitespace(text) => Event::Whitespace(text),
        XmlEvent::StartDocument { .. } => Event::StartDocument,
        XmlEvent::EndDocument => Event::EndDocument,
        XmlEvent::ProcessingInstruction { .. } => Event::ProcessingInstruction,
        XmlEvent::Comment(_) => Event::Comment,
    }
}

impl<'a> EventSource<'a> {
    /// A source over the document `bytes`, tokenized under the five
    /// settings given.
    pub fn new(
        bytes: &'a [u8],
        trim_whitespace: bool,
        whitespace_to_characters: bool,
        cdata_to_characters: bool,
        ignore_comments: bool,
        coalesce_characters: bool,
    ) -> (source: Self)
        ensures
            (upcoming(source), ending(source)) == tokenized(
                bytes@,
                trim_whitespace,
                whitespace_to_characters,
                cdata_to_characters,
                ignore_comments,
                coalesce_characters,
            ),
    {
        open(
            bytes,
            trim_whitespace,
            whitespace_to_characters,
            cdata_to_characters,
            ignore_comments,
            coalesce_characters,
        )
    }

    /// A source over the document `bytes` under the default normalization:
    /// whitespace is trimmed, whitespace and CDATA count as character data,
    /// comments are dropped and adjacent character data is one event.
    pub fn normalized(bytes: &'a [u8]) -> (source: Self)
        ensures
            (upcoming(source), ending(source)) == tokenized(bytes@, true, true, true, true, true),
    {
        open(bytes, true, true, true, true, true)
    }
}

} // verus!
