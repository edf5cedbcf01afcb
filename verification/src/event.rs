//! The XML token stream the schema mapper consumes: names and values as
//! plain text, already unescaped, and its mathematical model.

use vstd::prelude::*;

verus! {

/// One event of the XML token stream.
pub enum XmlEvent {
    /// An opening tag: its name and its attributes (name, unescaped value).
    Start(String, Vec<(String, String)>),
    /// A self-closing tag: its name and its attributes.
    Empty(String, Vec<(String, String)>),
    /// A closing tag.
    End(String),
    /// Character data, unescaped.
    Text(String),
    /// The end of the document.
    Eof,
    /// Anything the schema never reads: a comment, a declaration, a
    /// processing instruction, a document type definition.
    Other,
}

/// Model of one event, over character sequences.
pub enum EventModel {
    Start(Seq<char>, Seq<(Seq<char>, Seq<char>)>),
    Empty(Seq<char>, Seq<(Seq<char>, Seq<char>)>),
    End(Seq<char>),
    Text(Seq<char>),
    Eof,
    Other,
}

/// Model of an attribute list: each name and value as its characters.
pub open spec fn attrs_model(attrs: Seq<(String, String)>) -> Seq<(Seq<char>, Seq<char>)> {
    Seq::new(attrs.len(), |i: int| (attrs[i].0@, attrs[i].1@))
}

impl View for XmlEvent {
    type V = EventModel;

    open spec fn view(&self) -> EventModel {
        match self {
            XmlEvent::Start(n, attrs) => EventModel::Start(n@, attrs_model(attrs@)),
            XmlEvent::Empty(n, attrs) => EventModel::Empty(n@, attrs_model(attrs@)),
            XmlEvent::End(n) => EventModel::End(n@),
            XmlEvent::Text(t) => EventModel::Text(t@),
            XmlEvent::Eof => EventModel::Eof,
            XmlEvent::Other => EventModel::Other,
        }
    }
}

impl DeepView for XmlEvent {
    type V = EventModel;

    open spec fn deep_view(&self) -> EventModel {
        self.view()
    }
}

} // verus!
