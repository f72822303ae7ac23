//! The pull interface over a byte stream: a [`Parser`] owns the XML
//! tokenizer and drives the verified state machine in [`crate::machine`],
//! one event per step, yielding one page or error per call of `next`.

use vstd::prelude::*;

use crate::event::Event;
use crate::event::EventV;
use crate::laws::lemma_run_snoc;
use crate::laws::run;
use crate::laws::RunOutcome;
use crate::machine::lemma_yield_resumes_in_root;
use crate::machine::step;
use crate::machine::ErrorKind;
use crate::machine::Outcome;
use crate::machine::Page;
use crate::machine::State;
use crate::machine::StateV;
use crate::xml_io::new_reader;
use crate::xml_io::position_text;
use crate::xml_io::read_event;
use crate::xml_io::stream_position;
use crate::xml_io::xml_error_text;
use crate::xml_io::Tokenizer;

verus! {

/// The error type for [`Parser`].
#[derive(Debug)]
pub enum ParseError {
    /// Format not matching expectations.
    ///
    /// Indicates the position in the stream.
    Format(xml::common::TextPosition),
    /// The source contains a feature not supported by the parser: a `page`
    /// element with more than one `revision` element.
    NotSupported(xml::common::TextPosition),
    /// Error from the XML reader.
    XmlReader(xml::reader::Error),
}

impl ParseError {
    /// A human-readable description of the error, naming the stream position
    /// where it was detected.
    pub fn describe(&self) -> String {
        match self {
            ParseError::Format(position) => {
                let mut s = String::from_str("Invalid format at position ");
                s.append(position_text(position).as_str());
                s
            },
            ParseError::NotSupported(position) => {
                let mut s = String::from_str("The element at position ");
                s.append(position_text(position).as_str());
                s.append(" is not supported");
                s
            },
            ParseError::XmlReader(error) => xml_error_text(error),
        }
    }
}

impl From<xml::reader::Error> for ParseError {
    /// Wraps the tokenizer's error.
    fn from(value: xml::reader::Error) -> (r: Self) {
        ParseError::XmlReader(value)
    }
}

impl vstd::std_specs::convert::FromSpecImpl<xml::reader::Error> for ParseError {
    open spec fn obeys_from_spec() -> bool {
        true
    }

    open spec fn from_spec(t: xml::reader::Error) -> Self {
        ParseError::XmlReader(t)
    }
}

/// How one verdict of [`Parser::next`] corresponds to the machine's run over
/// the events the call consumed: a page is the run's yield and the machine
/// rests where the run says; a not-supported error is the run's rejection; a
/// format error is the run's rejection, unless the call's event budget ran
/// out with the run still needing input; a reader error ends the call while
/// the run still needed input; `None` is the run's end of the document.
pub open spec fn verdict_of_run(
    r: Option<Result<Page, ParseError>>,
    here: RunOutcome,
    resting: StateV,
) -> bool {
    match r {
        None => here == RunOutcome::Ended,
        Some(Ok(p)) => here == RunOutcome::Page(p@, resting, Seq::empty()),
        Some(Err(e)) => match e {
            ParseError::Format(_) => here == RunOutcome::Failed(ErrorKind::Format) || here
                is NeedsInput,
            ParseError::NotSupported(_) => here == RunOutcome::Failed(ErrorKind::NotSupported),
            ParseError::XmlReader(_) => here is NeedsInput,
        },
    }
}

/// Parser working as a pull iterator over the pages of one dump.
///
/// Between two calls of [`Parser::next`] the machine rests either before the
/// root element or directly inside it; `exhausted` is set once the root
/// element has ended or an error has been yielded, and from then on every
/// call returns `None` or the machine is never consulted again.
pub struct Parser<'a> {
    event_reader: Tokenizer<'a>,
    state: State,
    exhausted: bool,
    consumed: Ghost<Seq<EventV>>,
}

impl<'a> Parser<'a> {
    /// Whether the parser is terminal: the root element has ended, or an
    /// error has been yielded. From then on `next` returns `None`.
    pub closed spec fn is_exhausted(&self) -> bool {
        self.exhausted
    }

    /// Whether the machine rests directly inside the root element, where the
    /// next `page` element begins.
    pub closed spec fn at_root(&self) -> bool {
        self.state@ is InRoot
    }

    /// The parser either is exhausted or rests at a call boundary: before
    /// the root element or directly inside it.
    pub closed spec fn wf(&self) -> bool {
        !self.exhausted ==> (self.state@ is BeforeRoot || self.state@ is InRoot)
    }

    /// The state the machine rests in between two calls.
    pub closed spec fn resting_state(&self) -> StateV {
        self.state@
    }

    /// Every event the tokenizer has handed over so far, in order.
    pub closed spec fn consumed(&self) -> Seq<EventV> {
        self.consumed@
    }

    /// Pulls events until the machine yields one page, fails, or sees the
    /// end of the root element.
    ///
    /// Returns `None` once the root element has ended, and forever after;
    /// after an error has been returned the parser is likewise terminal.
    /// What is returned is the machine's verdict, under [`run`], on exactly
    /// the events the tokenizer handed over during this call; a reader error
    /// ends the call while the run still needed input. One call consumes at
    /// most `u64::MAX` events, a cap no real stream reaches; a call that
    /// exhausts it fails like a malformed document, which the run, still
    /// needing input, tells apart from a rejection by the machine.
    #[verifier::loop_isolation(false)]
    pub fn next(&mut self) -> (r: Option<Result<Page, ParseError>>)
        requires
            old(self).wf(),
        ensures
            final(self).wf(),
            old(self).is_exhausted() ==> r is None,
            r is None ==> final(self).is_exhausted(),
            (r matches Some(res) && res is Err) ==> final(self).is_exhausted(),
            (r matches Some(res) && res is Ok) ==> final(self).at_root(),
            old(self).consumed().is_prefix_of(final(self).consumed()),
            !old(self).is_exhausted() ==> verdict_of_run(
                r,
                run(
                    old(self).resting_state(),
                    final(self).consumed().skip(old(self).consumed().len() as int),
                ),
                final(self).resting_state(),
            ),
    {
        if self.exhausted {
            return None;
        }
        let ghost entry_state = self.state@;
        let ghost entry_consumed = self.consumed@;
        let mut budget: u64 = u64::MAX;
        while budget > 0
            invariant
                !self.exhausted,
                entry_consumed.is_prefix_of(self.consumed@),
                run(entry_state, self.consumed@.skip(entry_consumed.len() as int))
                    == RunOutcome::NeedsInput(self.state@),
            decreases budget,
        {
            budget = budget - 1;
            let event = match read_event(&mut self.event_reader) {
                Ok(event) => event,
                Err(error) => {
                    self.exhausted = true;
                    return Some(Err(ParseError::from(error)));
                },
            };
            let ghost before = self.consumed@.skip(entry_consumed.len() as int);
            proof {
                lemma_run_snoc(entry_state, before, event@, self.state@);
                assert((self.consumed@ + seq![event@]).skip(entry_consumed.len() as int) =~= before
                    + seq![event@]);
            }
            self.consumed = Ghost(self.consumed@ + seq![event@]);
            let mut state = State::BeforeRoot;
            core::mem::swap(&mut state, &mut self.state);
            let ghost state_v = state@;
            let ghost event_v = event@;
            match step(state, event) {
                Outcome::Next(next_state) => {
                    self.state = next_state;
                },
                Outcome::Yield(next_state, page) => {
                    proof {
                        lemma_yield_resumes_in_root(state_v, event_v);
                    }
                    self.state = next_state;
                    return Some(Ok(page));
                },
                Outcome::Fail(kind) => {
                    self.exhausted = true;
                    let position = stream_position(&self.event_reader);
                    return Some(
                        Err(
                            match kind {
                                ErrorKind::Format => ParseError::Format(position),
                                ErrorKind::NotSupported => ParseError::NotSupported(position),
                            },
                        ),
                    );
                },
                Outcome::Finished => {
                    self.exhausted = true;
                    return None;
                },
            }
        }
        self.exhausted = true;
        let position = stream_position(&self.event_reader);
        Some(Err(ParseError::Format(position)))
    }
}

/// Creates a parser for a stream.
///
/// The stream is parsed as an XML dump exported from MediaWiki; each call of
/// [`Parser::next`] yields one page of the dump, in document order.
/// Construction performs no reading.
pub fn parse<'a, R: std::io::Read + 'a>(source: R) -> (p: Parser<'a>)
    ensures
        p.wf(),
        !p.is_exhausted(),
        p.resting_state() == StateV::BeforeRoot,
        p.consumed() == Seq::<EventV>::empty(),
{
    Parser {
        event_reader: new_reader(source),
        state: State::BeforeRoot,
        exhausted: false,
        consumed: Ghost(Seq::empty()),
    }
}

} // verus!
