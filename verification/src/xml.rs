//! The boundary to the `quick-xml` crate: turning XML text into the token
//! stream the verified schema mapper consumes.
//!
//! Tokenizing borrows the text and reads nothing else — no chance, time or
//! environment — so what the tokenizer yields is a function of the text
//! alone. That function is named `xml_tokens_of`; the trusted `tokenize`
//! says its result is exactly that, and everything downstream is verified
//! against the name.

use vstd::prelude::*;
use quick_xml::events::Event;
use crate::error::{DeError, ErrModel};
use crate::event::{EventModel, XmlEvent};
use crate::mapper::{parse_events, spec_parse};
use crate::types::{DocModel, ListOne};

verus! {

/// What tokenizing a text yields: its events ending in `Eof`, or the
/// tokenizer's error. The result depends on the text alone.
pub uninterp spec fn xml_tokens_of(s: Seq<char>) -> Result<Seq<EventModel>, ErrModel>;

#[verifier::external_type_specification]
#[verifier::external_body]
#[verifier::reject_recursive_types(R)]
pub struct ExReader<R>(quick_xml::Reader<R>);

#[verifier::external_type_specification]
#[verifier::external_body]
pub struct ExBytesStart<'a>(quick_xml::events::BytesStart<'a>);

#[verifier::external_type_specification]
#[verifier::external_body]
pub struct ExBytesText<'a>(quick_xml::events::BytesText<'a>);

/// Relies on quick_xml's BytesStart::attributes and
/// Attribute::unescape_value: converts an opening tag's attributes to
/// name/value pairs, values unescaped.
#[verifier::external_body]
fn conv_attrs(e: &quick_xml::events::BytesStart) -> (r: Result<Vec<(String, String)>, DeError>) {
    let mut attrs: Vec<(String, String)> = Vec::new();
    for a in e.attributes() {
        let a = match a {
            Ok(a) => a,
            Err(err) => return Err(DeError::Syntax(format!("{}", err))),
        };
        let v = match a.unescape_value() {
            Ok(v) => v,
            Err(err) => return Err(DeError::Syntax(format!("{}", err))),
        };
        attrs.push((String::from_utf8_lossy(a.key.as_ref()).into_owned(), v.into_owned()));
    }
    Ok(attrs)
}

/// Relies on quick_xml's BytesStart::name: converts an opening tag to its
/// name and its attribute pairs.
#[verifier::external_body]
fn conv_start(e: &quick_xml::events::BytesStart, empty: bool) -> (r: Result<XmlEvent, DeError>) {
    let name = String::from_utf8_lossy(e.name().as_ref()).into_owned();
    match conv_attrs(e) {
        Ok(attrs) => Ok(
            if empty { XmlEvent::Empty(name, attrs) } else { XmlEvent::Start(name, attrs) },
        ),
        Err(err) => Err(err),
    }
}

/// Relies on quick_xml::Reader::read_event (and BytesText::unescape for
/// character data): reads the next event of the document and hands it over
/// with names and text as plain, unescaped strings. Anything the schema
/// never reads comes back as `Other`; a malformed document comes back as a
/// syntax error carrying the tokenizer's message.
#[verifier::external_body]
fn next_event<'a>(r: &mut quick_xml::Reader<&'a [u8]>) -> (res: Result<XmlEvent, DeError>) {
    match r.read_event() {
        Err(e) => Err(DeError::Syntax(format!("{}", e))),
        Ok(Event::Start(e)) => conv_start(&e, false),
        Ok(Event::Empty(e)) => conv_start(&e, true),
        Ok(Event::End(e)) => Ok(
            XmlEvent::End(String::from_utf8_lossy(e.name().as_ref()).into_owned()),
        ),
        Ok(Event::Text(t)) => conv_text(&t),
        Ok(Event::CData(t)) => Ok(XmlEvent::Text(String::from_utf8_lossy(t.as_ref()).into_owned())),
        Ok(Event::Eof) => Ok(XmlEvent::Eof),
        Ok(_) => Ok(XmlEvent::Other),
    }
}

/// Relies on quick_xml's BytesText::unescape: converts character data to
/// plain text with entities resolved.
#[verifier::external_body]
fn conv_text(t: &quick_xml::events::BytesText) -> (r: Result<XmlEvent, DeError>) {
    match t.unescape() {
        Ok(s) => Ok(XmlEvent::Text(s.into_owned())),
        Err(e) => Err(DeError::Syntax(format!("{}", e))),
    }
}

/// Relies on quick_xml::Reader::from_str and Reader::read_event: reads the
/// whole document into its events, through the converting helpers below,
/// stopping at `Eof` (always pushed last) or at the first error. The reader
/// walks the borrowed text and nothing else, so the outcome is the function
/// of the text named `xml_tokens_of`.
#[verifier::external_body]
fn tokenize(s: &str) -> (r: Result<Vec<XmlEvent>, DeError>)
    ensures
        match r {
            Ok(evs) => xml_tokens_of(s@) == Ok::<Seq<EventModel>, ErrModel>(evs.deep_view()),
            Err(e) => xml_tokens_of(s@) == Err::<Seq<EventModel>, ErrModel>(e@),
        },
{
    let mut reader = quick_xml::Reader::from_str(s);
    let mut events: Vec<XmlEvent> = Vec::new();
    loop {
        match next_event(&mut reader) {
            Err(e) => return Err(e),
            Ok(XmlEvent::Eof) => {
                events.push(XmlEvent::Eof);
                return Ok(events);
            },
            Ok(ev) => events.push(ev),
        }
    }
}

/// Builds a [`ListOne`] from a string slice holding the List One XML
/// document: the text's token stream (`xml_tokens_of`) folded by the
/// verified schema mapper (`spec_parse`). Both are functions of the text,
/// so equal texts give equal results; a malformed text or a field failing a
/// validator gives exactly the error the mapping says, never a document.
pub fn deserialize_list_one(xml: &str) -> (r: Result<ListOne, DeError>)
    ensures
        match xml_tokens_of(xml@) {
            Ok(evs) => match r {
                Ok(d) => spec_parse(evs) == Ok::<DocModel, ErrModel>(d@),
                Err(e) => spec_parse(evs) == Err::<DocModel, ErrModel>(e@),
            },
            Err(e0) => match r {
                Ok(_d) => false,
                Err(e) => e@ == e0,
            },
        },
{
    match tokenize(xml) {
        Err(e) => Err(e),
        Ok(events) => parse_events(&events),
    }
}

} // verus!
