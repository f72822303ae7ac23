//! The event alphabet of the page state machine, and the namespace matcher.

use vstd::prelude::*;

verus! {

/// One structural event from the XML tokenizer, reduced to the parts the
/// page state machine reads: element boundaries with their qualified name,
/// and character data. Everything else the tokenizer may report (comments,
/// whitespace runs, processing instructions, document boundaries, CDATA) is
/// collapsed into `Other`, which the machine ignores exactly as it ignores
/// those events.
pub enum Event {
    /// A start tag, with the element's resolved namespace URI (if any) and
    /// its local name.
    Start { namespace: Option<String>, local_name: String },
    /// An end tag.
    End,
    /// Character data between tags.
    Text(String),
    /// Any event the machine does not read.
    Other,
}

/// Mathematical view of an [`Event`]: strings as character sequences.
pub enum EventV {
    Start { namespace: Option<Seq<char>>, local_name: Seq<char> },
    End,
    Text(Seq<char>),
    Other,
}

impl View for Event {
    type V = EventV;

    open spec fn view(&self) -> EventV {
        match self {
            Event::Start { namespace, local_name } => EventV::Start {
                namespace: namespace.deep_view(),
                local_name: local_name@,
            },
            Event::End => EventV::End,
            Event::Text(s) => EventV::Text(s@),
            Event::Other => EventV::Other,
        }
    }
}

/// The namespace URI that qualifies every element of the supported schema.
pub open spec fn mw_ns() -> Seq<char> {
    "http://www.mediawiki.org/xml/export-0.10/"@
}

/// Whether a qualified name's namespace URI is the MediaWiki export
/// namespace. An absent namespace never matches, whatever the local name.
pub open spec fn spec_match_namespace(namespace: Option<Seq<char>>) -> bool {
    namespace matches Some(n) && n == mw_ns()
}

/// Decides whether an element's namespace is the MediaWiki export namespace.
pub fn match_namespace(namespace: &Option<String>) -> (r: bool)
    ensures
        r == spec_match_namespace(namespace.deep_view()),
{
    match namespace {
        None => false,
        Some(s) => {
            let expected: String = "http://www.mediawiki.org/xml/export-0.10/".to_owned();
            *s == expected
        },
    }
}

/// Decides whether a local name equals the given tag.
pub fn is_tag(name: &String, tag: &str) -> (r: bool)
    ensures
        r == (name@ == tag@),
{
    let expected: String = tag.to_owned();
    *name == expected
}

} // verus!
