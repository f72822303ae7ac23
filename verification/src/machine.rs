//! The page assembly state machine: one transition per XML parse event.
//!
//! The machine makes every decision of the parse — which elements are
//! meaningful, how leaf text is extracted, how unrecognized subtrees are
//! skipped, when a page is complete and when the document is malformed. It
//! is pure: the driver in [`crate::parser`] feeds it one event at a time and
//! acts on the outcome.

use vstd::prelude::*;

use crate::event::Event;
use crate::event::EventV;
use crate::event::is_tag;
use crate::event::match_namespace;
use crate::event::spec_match_namespace;
use crate::numeric::parse_u32;
use crate::numeric::spec_parse_u32;

verus! {

/// One page record extracted from the dump.
///
/// `format` and `model` are optional because older versions of the export
/// schema lack the corresponding elements; `title`, `namespace` and `text`
/// are present in every assembled page.
#[derive(Debug)]
pub struct Page {
    /// Text content of the `format` element of the revision, if present.
    pub format: Option<String>,
    /// Text content of the `model` element of the revision, if present.
    pub model: Option<String>,
    /// The page's namespace, parsed from the decimal text of the `ns` element.
    pub namespace: u32,
    /// Text content of the `text` element of the revision.
    pub text: String,
    /// Text content of the `title` element of the page.
    pub title: String,
}

/// Mathematical view of a [`Page`].
pub struct PageV {
    pub format: Option<Seq<char>>,
    pub model: Option<Seq<char>>,
    pub namespace: u32,
    pub text: Seq<char>,
    pub title: Seq<char>,
}

impl View for Page {
    type V = PageV;

    open spec fn view(&self) -> PageV {
        PageV {
            format: self.format.deep_view(),
            model: self.model.deep_view(),
            namespace: self.namespace,
            text: self.text@,
            title: self.title@,
        }
    }
}

/// The fields collected while a `page` element is open. Each starts unset
/// and is assigned at most once; a second occurrence of the same element is
/// rejected before its content is read.
pub struct Acc {
    pub format: Option<String>,
    pub model: Option<String>,
    pub namespace: Option<u32>,
    pub text: Option<String>,
    pub title: Option<String>,
}

/// Mathematical view of an [`Acc`].
pub struct AccV {
    pub format: Option<Seq<char>>,
    pub model: Option<Seq<char>>,
    pub namespace: Option<u32>,
    pub text: Option<Seq<char>>,
    pub title: Option<Seq<char>>,
}

impl View for Acc {
    type V = AccV;

    open spec fn view(&self) -> AccV {
        AccV {
            format: self.format.deep_view(),
            model: self.model.deep_view(),
            namespace: self.namespace,
            text: self.text.deep_view(),
            title: self.title.deep_view(),
        }
    }
}

impl Acc {
    /// A fresh accumulator with every field unset.
    pub fn empty() -> (r: Acc)
        ensures
            r@ == (AccV {
                format: None,
                model: None,
                namespace: None,
                text: None,
                title: None,
            }),
    {
        Acc { format: None, model: None, namespace: None, text: None, title: None }
    }
}

/// A leaf element whose text content is being extracted.
pub enum Field {
    Ns,
    Title,
    Format,
    Model,
    Text,
}

/// Where control returns once a skipped subtree is over.
pub enum SkipRet {
    Root,
    Page(Acc),
    Revision(Acc),
}

/// Mathematical view of a [`SkipRet`].
pub enum SkipRetV {
    Root,
    Page(AccV),
    Revision(AccV),
}

impl View for SkipRet {
    type V = SkipRetV;

    open spec fn view(&self) -> SkipRetV {
        match self {
            SkipRet::Root => SkipRetV::Root,
            SkipRet::Page(acc) => SkipRetV::Page(acc@),
            SkipRet::Revision(acc) => SkipRetV::Revision(acc@),
        }
    }
}

/// The machine's state between two events.
///
/// `BeforeRoot` lasts until the root element is seen; `InRoot`, `InPage` and
/// `InRevision` mirror the nesting of the document; `InLeaf` and
/// `AfterLeafText` extract the text of one recognized leaf element;
/// `Skipping` discards an unrecognized subtree, counting its nesting depth.
pub enum State {
    BeforeRoot,
    InRoot,
    InPage(Acc),
    InRevision(Acc),
    InLeaf { field: Field, acc: Acc },
    AfterLeafText { field: Field, acc: Acc, value: String },
    Skipping { depth: usize, ret: SkipRet },
}

/// Mathematical view of a [`State`].
pub enum StateV {
    BeforeRoot,
    InRoot,
    InPage(AccV),
    InRevision(AccV),
    InLeaf { field: Field, acc: AccV },
    AfterLeafText { field: Field, acc: AccV, value: Seq<char> },
    Skipping { depth: usize, ret: SkipRetV },
}

impl View for State {
    type V = StateV;

    open spec fn view(&self) -> StateV {
        match self {
            State::BeforeRoot => StateV::BeforeRoot,
            State::InRoot => StateV::InRoot,
            State::InPage(acc) => StateV::InPage(acc@),
            State::InRevision(acc) => StateV::InRevision(acc@),
            State::InLeaf { field, acc } => StateV::InLeaf { field: *field, acc: acc@ },
            State::AfterLeafText { field, acc, value } => StateV::AfterLeafText {
                field: *field,
                acc: acc@,
                value: value@,
            },
            State::Skipping { depth, ret } => StateV::Skipping { depth: *depth, ret: ret@ },
        }
    }
}

/// Why a parse failed: the document's shape is wrong, or it uses a feature
/// the parser deliberately does not support (a second revision in one page).
pub enum ErrorKind {
    Format,
    NotSupported,
}

/// What one transition asks the driver to do.
pub enum Outcome {
    /// Keep reading: the machine moved to this state.
    Next(State),
    /// A page is complete: yield it, then continue from this state.
    Yield(State, Page),
    /// The parse failed.
    Fail(ErrorKind),
    /// The root element ended: the sequence of pages is over.
    Finished,
}

/// Mathematical view of an [`Outcome`].
pub enum OutcomeV {
    Next(StateV),
    Yield(StateV, PageV),
    Fail(ErrorKind),
    Finished,
}

impl View for Outcome {
    type V = OutcomeV;

    open spec fn view(&self) -> OutcomeV {
        match self {
            Outcome::Next(s) => OutcomeV::Next(s@),
            Outcome::Yield(s, p) => OutcomeV::Yield(s@, p@),
            Outcome::Fail(k) => OutcomeV::Fail(*k),
            Outcome::Finished => OutcomeV::Finished,
        }
    }
}

/// The accumulator after assigning extracted leaf text to `field`. For the
/// `ns` field the text itself is not kept; its parsed value is.
pub open spec fn spec_assign(field: Field, acc: AccV, value: Seq<char>, ns_val: u32) -> AccV {
    match field {
        Field::Ns => AccV { namespace: Some(ns_val), ..acc },
        Field::Title => AccV { title: Some(value), ..acc },
        Field::Format => AccV { format: Some(value), ..acc },
        Field::Model => AccV { model: Some(value), ..acc },
        Field::Text => AccV { text: Some(value), ..acc },
    }
}

/// The state a completed leaf element returns to: `ns` and `title` live in
/// the `page` element, `format`, `model` and `text` in the `revision`.
pub open spec fn spec_leaf_done(field: Field, acc: AccV) -> StateV {
    match field {
        Field::Ns => StateV::InPage(acc),
        Field::Title => StateV::InPage(acc),
        Field::Format => StateV::InRevision(acc),
        Field::Model => StateV::InRevision(acc),
        Field::Text => StateV::InRevision(acc),
    }
}

/// The outcome of finishing a leaf element whose extracted text is `value`:
/// the `ns` field must parse as a decimal `u32`, every other field stores
/// the text as it is.
pub open spec fn spec_complete_leaf(field: Field, acc: AccV, value: Seq<char>) -> OutcomeV {
    match field {
        Field::Ns => match spec_parse_u32(value) {
            None => OutcomeV::Fail(ErrorKind::Format),
            Some(v) => OutcomeV::Next(StateV::InPage(spec_assign(field, acc, value, v))),
        },
        _ => OutcomeV::Next(spec_leaf_done(field, spec_assign(field, acc, value, 0))),
    }
}

/// The state a finished skip resumes in.
pub open spec fn spec_skip_resume(ret: SkipRetV) -> StateV {
    match ret {
        SkipRetV::Root => StateV::InRoot,
        SkipRetV::Page(acc) => StateV::InPage(acc),
        SkipRetV::Revision(acc) => StateV::InRevision(acc),
    }
}

/// The transition relation of the page state machine: what the machine does
/// in state `st` on event `ev`.
pub open spec fn spec_step(st: StateV, ev: EventV) -> OutcomeV {
    match st {
        StateV::BeforeRoot => match ev {
            EventV::Start { namespace, local_name } => {
                if spec_match_namespace(namespace) && local_name == "mediawiki"@ {
                    OutcomeV::Next(StateV::InRoot)
                } else {
                    OutcomeV::Fail(ErrorKind::Format)
                }
            },
            _ => OutcomeV::Next(StateV::BeforeRoot),
        },
        StateV::InRoot => match ev {
            EventV::End => OutcomeV::Finished,
            EventV::Start { namespace, local_name } => {
                if spec_match_namespace(namespace) && local_name == "page"@ {
                    OutcomeV::Next(StateV::InPage(AccV {
                        format: None,
                        model: None,
                        namespace: None,
                        text: None,
                        title: None,
                    }))
                } else {
                    OutcomeV::Next(StateV::Skipping { depth: 0, ret: SkipRetV::Root })
                }
            },
            _ => OutcomeV::Next(StateV::InRoot),
        },
        StateV::InPage(acc) => match ev {
            EventV::End => {
                if acc.namespace is Some && acc.text is Some && acc.title is Some {
                    OutcomeV::Yield(
                        StateV::InRoot,
                        PageV {
                            format: acc.format,
                            model: acc.model,
                            namespace: acc.namespace->Some_0,
                            text: acc.text->Some_0,
                            title: acc.title->Some_0,
                        },
                    )
                } else {
                    OutcomeV::Fail(ErrorKind::Format)
                }
            },
            EventV::Start { namespace, local_name } => {
                if spec_match_namespace(namespace) && local_name == "ns"@ {
                    if acc.namespace is Some {
                        OutcomeV::Fail(ErrorKind::Format)
                    } else {
                        OutcomeV::Next(StateV::InLeaf { field: Field::Ns, acc })
                    }
                } else if spec_match_namespace(namespace) && local_name == "revision"@ {
                    if acc.text is Some {
                        OutcomeV::Fail(ErrorKind::NotSupported)
                    } else {
                        OutcomeV::Next(StateV::InRevision(acc))
                    }
                } else if spec_match_namespace(namespace) && local_name == "title"@ {
                    if acc.title is Some {
                        OutcomeV::Fail(ErrorKind::Format)
                    } else {
                        OutcomeV::Next(StateV::InLeaf { field: Field::Title, acc })
                    }
                } else {
                    OutcomeV::Next(StateV::Skipping { depth: 0, ret: SkipRetV::Page(acc) })
                }
            },
            _ => OutcomeV::Next(StateV::InPage(acc)),
        },
        StateV::InRevision(acc) => match ev {
            EventV::End => {
                if acc.text is Some {
                    OutcomeV::Next(StateV::InPage(acc))
                } else {
                    OutcomeV::Fail(ErrorKind::Format)
                }
            },
            EventV::Start { namespace, local_name } => {
                if spec_match_namespace(namespace) && local_name == "format"@ {
                    if acc.format is Some {
                        OutcomeV::Fail(ErrorKind::Format)
                    } else {
                        OutcomeV::Next(StateV::InLeaf { field: Field::Format, acc })
                    }
                } else if spec_match_namespace(namespace) && local_name == "model"@ {
                    if acc.model is Some {
                        OutcomeV::Fail(ErrorKind::Format)
                    } else {
                        OutcomeV::Next(StateV::InLeaf { field: Field::Model, acc })
                    }
                } else if spec_match_namespace(namespace) && local_name == "text"@ {
                    if acc.text is Some {
                        OutcomeV::Fail(ErrorKind::Format)
                    } else {
                        OutcomeV::Next(StateV::InLeaf { field: Field::Text, acc })
                    }
                } else {
                    OutcomeV::Next(StateV::Skipping { depth: 0, ret: SkipRetV::Revision(acc) })
                }
            },
            _ => OutcomeV::Next(StateV::InRevision(acc)),
        },
        StateV::InLeaf { field, acc } => match ev {
            EventV::Text(value) => OutcomeV::Next(StateV::AfterLeafText { field, acc, value }),
            EventV::End => spec_complete_leaf(field, acc, Seq::empty()),
            _ => OutcomeV::Fail(ErrorKind::Format),
        },
        StateV::AfterLeafText { field, acc, value } => match ev {
            EventV::End => spec_complete_leaf(field, acc, value),
            _ => OutcomeV::Fail(ErrorKind::Format),
        },
        StateV::Skipping { depth, ret } => match ev {
            EventV::Start { .. } => {
                if depth == usize::MAX {
                    OutcomeV::Fail(ErrorKind::Format)
                } else {
                    OutcomeV::Next(StateV::Skipping { depth: (depth + 1) as usize, ret })
                }
            },
            EventV::End => {
                if depth == 0 {
                    OutcomeV::Next(spec_skip_resume(ret))
                } else {
                    OutcomeV::Next(StateV::Skipping { depth: (depth - 1) as usize, ret })
                }
            },
            _ => OutcomeV::Next(StateV::Skipping { depth, ret }),
        },
    }
}

/// A page is only ever yielded at the end of its `page` element, and the
/// machine then rests directly inside the root element, ready for the next
/// page.
pub proof fn lemma_yield_resumes_in_root(st: StateV, ev: EventV)
    ensures
        spec_step(st, ev) matches OutcomeV::Yield(s, p) ==> s == StateV::InRoot,
{
}

/// Finishes a leaf element: assigns `value` to `field`, parsing it as a
/// decimal number first when the field is `ns`.
fn complete_leaf(field: Field, acc: Acc, value: String) -> (r: Outcome)
    ensures
        r@ == spec_complete_leaf(field, acc@, value@),
{
    match field {
        Field::Ns => match parse_u32(value.as_str()) {
            None => Outcome::Fail(ErrorKind::Format),
            Some(v) => Outcome::Next(State::InPage(Acc { namespace: Some(v), ..acc })),
        },
        Field::Title => Outcome::Next(State::InPage(Acc { title: Some(value), ..acc })),
        Field::Format => Outcome::Next(State::InRevision(Acc { format: Some(value), ..acc })),
        Field::Model => Outcome::Next(State::InRevision(Acc { model: Some(value), ..acc })),
        Field::Text => Outcome::Next(State::InRevision(Acc { text: Some(value), ..acc })),
    }
}

/// Performs one transition of the page state machine.
pub fn step(state: State, event: Event) -> (r: Outcome)
    ensures
        r@ == spec_step(state@, event@),
{
    match state {
        State::BeforeRoot => match event {
            Event::Start { namespace, local_name } => {
                if match_namespace(&namespace) && is_tag(&local_name, "mediawiki") {
                    Outcome::Next(State::InRoot)
                } else {
                    Outcome::Fail(ErrorKind::Format)
                }
            },
            _ => Outcome::Next(State::BeforeRoot),
        },
        State::InRoot => match event {
            Event::End => Outcome::Finished,
            Event::Start { namespace, local_name } => {
                if match_namespace(&namespace) && is_tag(&local_name, "page") {
                    Outcome::Next(State::InPage(Acc::empty()))
                } else {
                    Outcome::Next(State::Skipping { depth: 0, ret: SkipRet::Root })
                }
            },
            _ => Outcome::Next(State::InRoot),
        },
        State::InPage(acc) => match event {
            Event::End => {
                match (acc.namespace, acc.text, acc.title) {
                    (Some(namespace), Some(text), Some(title)) => Outcome::Yield(
                        State::InRoot,
                        Page { format: acc.format, model: acc.model, namespace, text, title },
                    ),
                    _ => Outcome::Fail(ErrorKind::Format),
                }
            },
            Event::Start { namespace, local_name } => {
                if match_namespace(&namespace) && is_tag(&local_name, "ns") {
                    if acc.namespace.is_some() {
                        Outcome::Fail(ErrorKind::Format)
                    } else {
                        Outcome::Next(State::InLeaf { field: Field::Ns, acc })
                    }
                } else if match_namespace(&namespace) && is_tag(&local_name, "revision") {
                    if acc.text.is_some() {
                        Outcome::Fail(ErrorKind::NotSupported)
                    } else {
                        Outcome::Next(State::InRevision(acc))
                    }
                } else if match_namespace(&namespace) && is_tag(&local_name, "title") {
                    if acc.title.is_some() {
                        Outcome::Fail(ErrorKind::Format)
                    } else {
                        Outcome::Next(State::InLeaf { field: Field::Title, acc })
                    }
                } else {
                    Outcome::Next(State::Skipping { depth: 0, ret: SkipRet::Page(acc) })
                }
            },
            _ => Outcome::Next(State::InPage(acc)),
        },
        State::InRevision(acc) => match event {
            Event::End => {
                if acc.text.is_some() {
                    Outcome::Next(State::InPage(acc))
                } else {
                    Outcome::Fail(ErrorKind::Format)
                }
            },
            Event::Start { namespace, local_name } => {
                if match_namespace(&namespace) && is_tag(&local_name, "format") {
                    if acc.format.is_some() {
                        Outcome::Fail(ErrorKind::Format)
                    } else {
                        Outcome::Next(State::InLeaf { field: Field::Format, acc })
                    }
                } else if match_namespace(&namespace) && is_tag(&local_name, "model") {
                    if acc.model.is_some() {
                        Outcome::Fail(ErrorKind::Format)
                    } else {
                        Outcome::Next(State::InLeaf { field: Field::Model, acc })
                    }
                } else if match_namespace(&namespace) && is_tag(&local_name, "text") {
                    if acc.text.is_some() {
                        Outcome::Fail(ErrorKind::Format)
                    } else {
                        Outcome::Next(State::InLeaf { field: Field::Text, acc })
                    }
                } else {
                    Outcome::Next(State::Skipping { depth: 0, ret: SkipRet::Revision(acc) })
                }
            },
            _ => Outcome::Next(State::InRevision(acc)),
        },
        State::InLeaf { field, acc } => match event {
            Event::Text(value) => Outcome::Next(State::AfterLeafText { field, acc, value }),
            Event::End => complete_leaf(field, acc, String::new()),
            _ => Outcome::Fail(ErrorKind::Format),
        },
        State::AfterLeafText { field, acc, value } => match event {
            Event::End => complete_leaf(field, acc, value),
            _ => Outcome::Fail(ErrorKind::Format),
        },
        State::Skipping { depth, ret } => match event {
            Event::Start { .. } => {
                if depth == usize::MAX {
                    Outcome::Fail(ErrorKind::Format)
                } else {
                    Outcome::Next(State::Skipping { depth: depth + 1, ret })
                }
            },
            Event::End => {
                if depth == 0 {
                    Outcome::Next(match ret {
                        SkipRet::Root => State::InRoot,
                        SkipRet::Page(acc) => State::InPage(acc),
                        SkipRet::Revision(acc) => State::InRevision(acc),
                    })
                } else {
                    Outcome::Next(State::Skipping { depth: depth - 1, ret })
                }
            },
            _ => Outcome::Next(State::Skipping { depth, ret }),
        },
    }
}

} // verus!
