//! The events of a status document, as a streaming reader of the markup
//! yields them.

use vstd::prelude::*;
use xml::reader::{EventReader, XmlEvent};

verus! {

/// One event of a status document.
#[derive(Debug)]
pub enum StatusEvent {
    /// An element opens; `attributes` holds the values of its attributes,
    /// in the order in which the document writes them.
    Open { name: String, attributes: Vec<String> },
    /// An element closes.
    Close { name: String },
    /// Character data between two tags, other than white space alone.
    Text { text: String },
    /// Anything else that a document may hold: its start and end, a
    /// comment, a processing instruction, white space, a CDATA section.
    Other,
    /// The document is not well-formed from here on.
    Malformed,
}

/// A [`StatusEvent`], as mathematical values.
pub enum EventView {
    Open { name: Seq<char>, attributes: Seq<Seq<char>> },
    Close { name: Seq<char> },
    Text { text: Seq<char> },
    Other,
    Malformed,
}

impl DeepView for StatusEvent {
    type V = EventView;

    open spec fn deep_view(&self) -> EventView {
        match self {
            StatusEvent::Open { name, attributes } => EventView::Open {
                name: name@,
                attributes: attributes.deep_view(),
            },
            StatusEvent::Close { name } => EventView::Close { name: name@ },
            StatusEvent::Text { text } => EventView::Text { text: text@ },
            StatusEvent::Other => EventView::Other,
            StatusEvent::Malformed => EventView::Malformed,
        }
    }
}

/// The events that the reader of the `xml` crate yields for the document
/// `body`, each taken as an [`EventView`].
pub uninterp spec fn document_events(body: Seq<char>) -> Seq<EventView>;

/// Reads `body` with `xml::reader::EventReader::from_str` and walks the
/// reader to its end. Every item that it yields becomes one event, in order:
/// the start of an element with the element's name as the reader prints it
/// and the values of its attributes, the end of an element with its name,
/// character data with its text, an error as `Malformed`, and any other
/// item as `Other`. The contract claims that this list depends on the
/// characters of `body` alone, and names it `document_events`.
#[verifier::external_body]
pub(crate) fn read_events(body: &str) -> (events: Vec<StatusEvent>)
    ensures
        events.deep_view() == document_events(body@),
{
    let mut events = Vec::new();
    for item in EventReader::from_str(body) {
        events.push(match item {
            Ok(XmlEvent::StartElement { name, attributes, .. }) => StatusEvent::Open {
                name: name.to_string(),
                attributes: attributes.into_iter().map(|a| a.value).collect(),
            },
            Ok(XmlEvent::EndElement { name }) => StatusEvent::Close { name: name.to_string() },
            Ok(XmlEvent::Characters(text)) => StatusEvent::Text { text },
            Ok(_) => StatusEvent::Other,
            Err(_) => StatusEvent::Malformed,
        });
    }
    events
}

} // verus!
