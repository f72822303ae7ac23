//! Trusted boundary around the `xml` crate: type declarations and thin
//! wrappers for the tokenizer the parser drives.

use vstd::prelude::*;

use crate::event::Event;

verus! {

/// The XML tokenizer, held opaquely: it turns the raw bytes of the stream
/// into parse events. Verus refuses a declaration of the tokenizer's own
/// type, whose parameter carries the `std::io::Read` bound, so the tokenizer
/// is boxed behind this struct instead; every access goes through the
/// wrappers below.
#[verifier::external_body]
pub struct Tokenizer<'a> {
    inner: xml::reader::EventReader<Box<dyn std::io::Read + 'a>>,
}

/// A position in the byte stream, carried by errors for diagnostics only.
#[verifier::external_type_specification]
#[verifier::external_body]
pub struct ExTextPosition(xml::common::TextPosition);

/// The tokenizer's own error: malformed XML or an I/O failure.
#[verifier::external_type_specification]
#[verifier::external_body]
pub struct ExXmlError(xml::reader::Error);

/// Relies on xml::reader::EventReader::new: builds a tokenizer over the
/// stream without reading from it.
#[verifier::external_body]
pub(crate) fn new_reader<'a, R: std::io::Read + 'a>(source: R) -> Tokenizer<'a> {
    Tokenizer { inner: xml::reader::EventReader::new(Box::new(source)) }
}

/// Relies on xml::reader::EventReader::next: pulls the next parse event from
/// the stream. What comes back depends on the stream's bytes, so nothing is
/// promised of it; the state machine decides what every outcome means.
#[verifier::external_body]
pub(crate) fn read_event<'a>(reader: &mut Tokenizer<'a>) -> Result<Event, xml::reader::Error> {
    match reader.inner.next() {
        Ok(xml::reader::XmlEvent::StartElement { name, .. }) => Ok(
            Event::Start { namespace: name.namespace, local_name: name.local_name },
        ),
        Ok(xml::reader::XmlEvent::EndElement { .. }) => Ok(Event::End),
        Ok(xml::reader::XmlEvent::Characters(text)) => Ok(Event::Text(text)),
        Ok(_) => Ok(Event::Other),
        Err(error) => Err(error),
    }
}

/// Relies on xml::common::Position::position for EventReader: the position
/// of the last event the tokenizer produced.
#[verifier::external_body]
pub(crate) fn stream_position<'a>(reader: &Tokenizer<'a>) -> xml::common::TextPosition {
    xml::common::Position::position(&reader.inner)
}

/// Relies on the Display impl of xml::common::TextPosition: renders a
/// position as text for diagnostics.
#[verifier::external_body]
pub(crate) fn position_text(position: &xml::common::TextPosition) -> String {
    format!("{}", position)
}

/// Relies on the Display impl of xml::reader::Error: renders the tokenizer's
/// error as text for diagnostics.
#[verifier::external_body]
pub(crate) fn xml_error_text(error: &xml::reader::Error) -> String {
    format!("{}", error)
}

} // verus!
