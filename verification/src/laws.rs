//! Laws of the page state machine, stated over runs of [`spec_step`] on
//! whole event sequences: a well-formed document yields exactly its pages in
//! document order; skipped subtrees leave the machine where it was; the
//! schema violations are rejected with the right error.

use vstd::prelude::*;

use crate::event::EventV;
use crate::event::mw_ns;
use crate::event::spec_match_namespace;
use crate::machine::AccV;
use crate::machine::ErrorKind;
use crate::machine::Field;
use crate::machine::OutcomeV;
use crate::machine::PageV;
use crate::machine::SkipRetV;
use crate::machine::StateV;
use crate::machine::spec_skip_resume;
use crate::machine::spec_step;
use crate::numeric::spec_parse_u32;

verus! {

/// What a run of the machine over a finite sequence of events comes to: it
/// ran out of events, yielded a page (resting in some state with the events
/// not yet consumed), failed, or saw the end of the document.
pub enum RunOutcome {
    NeedsInput(StateV),
    Page(PageV, StateV, Seq<EventV>),
    Failed(ErrorKind),
    Ended,
}

/// Runs the machine from `st` over `evs` until it yields a page, fails,
/// finishes, or runs out of events. This is what one call of the parser's
/// `next` does with the events the tokenizer hands it.
pub open spec fn run(st: StateV, evs: Seq<EventV>) -> RunOutcome
    decreases evs.len(),
{
    if evs.len() == 0 {
        RunOutcome::NeedsInput(st)
    } else {
        match spec_step(st, evs[0]) {
            OutcomeV::Next(s2) => run(s2, evs.skip(1)),
            OutcomeV::Yield(s2, p) => RunOutcome::Page(p, s2, evs.skip(1)),
            OutcomeV::Fail(k) => RunOutcome::Failed(k),
            OutcomeV::Finished => RunOutcome::Ended,
        }
    }
}

/// `evs` drives the machine from `st` through one successful yield per page
/// of `pages`, in order, and then to the end of the document.
pub open spec fn yields_pages(st: StateV, evs: Seq<EventV>, pages: Seq<PageV>) -> bool
    decreases pages.len(),
{
    if pages.len() == 0 {
        run(st, evs) == RunOutcome::Ended
    } else {
        match run(st, evs) {
            RunOutcome::Page(p, s2, rest) => p == pages[0] && yields_pages(
                s2,
                rest,
                pages.skip(1),
            ),
            _ => false,
        }
    }
}

/// One consuming transition: the run over `e` followed by `tail` is the run
/// over `tail` from the state the machine moved to.
proof fn lemma_run_cons(st: StateV, e: EventV, tail: Seq<EventV>, s2: StateV)
    requires
        spec_step(st, e) == OutcomeV::Next(s2),
    ensures
        run(st, seq![e] + tail) == run(s2, tail),
{
    let evs = seq![e] + tail;
    assert(evs[0] == e);
    assert(evs.skip(1) =~= tail);
}

/// One yielding transition: the run stops with the page and the rest.
proof fn lemma_run_yield(st: StateV, e: EventV, tail: Seq<EventV>, s2: StateV, p: PageV)
    requires
        spec_step(st, e) == OutcomeV::Yield(s2, p),
    ensures
        run(st, seq![e] + tail) == RunOutcome::Page(p, s2, tail),
{
    let evs = seq![e] + tail;
    assert(evs[0] == e);
    assert(evs.skip(1) =~= tail);
}

/// Extending a run that still needs input by one event: the run over the
/// extended sequence is decided by the machine's transition on that event.
pub proof fn lemma_run_snoc(st: StateV, evs: Seq<EventV>, e: EventV, s2: StateV)
    requires
        run(st, evs) == RunOutcome::NeedsInput(s2),
    ensures
        run(st, evs + seq![e]) == match spec_step(s2, e) {
            OutcomeV::Next(s3) => RunOutcome::NeedsInput(s3),
            OutcomeV::Yield(s3, p) => RunOutcome::Page(p, s3, Seq::empty()),
            OutcomeV::Fail(k) => RunOutcome::Failed(k),
            OutcomeV::Finished => RunOutcome::Ended,
        },
    decreases evs.len(),
{
    if evs.len() == 0 {
        assert(s2 == st);
        let ext = evs + seq![e];
        assert(ext[0] == e);
        assert(ext.skip(1) =~= Seq::<EventV>::empty());
        match spec_step(st, e) {
            OutcomeV::Next(s3) => {
                assert(run(s3, ext.skip(1)) == RunOutcome::NeedsInput(s3));
            },
            _ => {},
        }
    } else {
        let ext = evs + seq![e];
        assert(ext[0] == evs[0]);
        assert(ext.skip(1) =~= evs.skip(1) + seq![e]);
        match spec_step(st, evs[0]) {
            OutcomeV::Next(s1) => {
                lemma_run_snoc(s1, evs.skip(1), e, s2);
            },
            _ => {},
        }
    }
}

/// The recognized tag names are pairwise distinct where the machine tells
/// them apart.
proof fn lemma_tags_distinct()
    ensures
        "ns"@ != "title"@,
        "ns"@ != "revision"@,
        "title"@ != "revision"@,
        "format"@ != "model"@,
        "format"@ != "text"@,
        "model"@ != "text"@,
{
    reveal_strlit("ns");
    reveal_strlit("title");
    reveal_strlit("revision");
    reveal_strlit("format");
    reveal_strlit("model");
    reveal_strlit("text");
    assert("ns"@.len() == 2 && "title"@.len() == 5 && "revision"@.len() == 8);
    assert("format"@.len() == 6 && "model"@.len() == 5 && "text"@.len() == 4);
}

/// A start tag of the export namespace.
pub open spec fn mw_start(local: Seq<char>) -> EventV {
    EventV::Start { namespace: Some(mw_ns()), local_name: local }
}

/// The per-page inputs of a fully populated `page` element.
pub struct PageSpec {
    pub title: Seq<char>,
    pub ns_text: Seq<char>,
    pub namespace: u32,
    pub text: Seq<char>,
    pub format: Seq<char>,
    pub model: Seq<char>,
}

impl PageSpec {
    /// The decimal text of the `ns` element denotes the page's namespace.
    pub open spec fn wf(self) -> bool {
        spec_parse_u32(self.ns_text) == Some(self.namespace)
    }

    /// The record the page element assembles.
    pub open spec fn page(self) -> PageV {
        PageV {
            format: Some(self.format),
            model: Some(self.model),
            namespace: self.namespace,
            text: self.text,
            title: self.title,
        }
    }

    /// The events of the fully populated `page` element: a title leaf, an
    /// `ns` leaf, and one revision holding format, model and text leaves.
    pub open spec fn block(self) -> Seq<EventV> {
        seq![
            mw_start("page"@),
            mw_start("title"@),
            EventV::Text(self.title),
            EventV::End,
            mw_start("ns"@),
            EventV::Text(self.ns_text),
            EventV::End,
            mw_start("revision"@),
            mw_start("format"@),
            EventV::Text(self.format),
            EventV::End,
            mw_start("model"@),
            EventV::Text(self.model),
            EventV::End,
            mw_start("text"@),
            EventV::Text(self.text),
            EventV::End,
            EventV::End,
            EventV::End,
        ]
    }
}

/// Inside the root element, one fully populated page block yields exactly
/// its page and leaves the machine back inside the root, with the remaining
/// events untouched.
pub proof fn lemma_page_block_yields(ps: PageSpec, rest: Seq<EventV>)
    requires
        ps.wf(),
    ensures
        run(StateV::InRoot, ps.block() + rest) == RunOutcome::Page(ps.page(), StateV::InRoot, rest),
{
    lemma_tags_distinct();
    let b = ps.block();
    let acc0 = AccV { format: None, model: None, namespace: None, text: None, title: None };
    let acc1 = AccV { title: Some(ps.title), ..acc0 };
    let acc2 = AccV { namespace: Some(ps.namespace), ..acc1 };
    let acc3 = AccV { format: Some(ps.format), ..acc2 };
    let acc4 = AccV { model: Some(ps.model), ..acc3 };
    let acc5 = AccV { text: Some(ps.text), ..acc4 };
    let s0 = StateV::InRoot;
    let s1 = StateV::InPage(acc0);
    let s2 = StateV::InLeaf { field: Field::Title, acc: acc0 };
    let s3 = StateV::AfterLeafText { field: Field::Title, acc: acc0, value: ps.title };
    let s4 = StateV::InPage(acc1);
    let s5 = StateV::InLeaf { field: Field::Ns, acc: acc1 };
    let s6 = StateV::AfterLeafText { field: Field::Ns, acc: acc1, value: ps.ns_text };
    let s7 = StateV::InPage(acc2);
    let s8 = StateV::InRevision(acc2);
    let s9 = StateV::InLeaf { field: Field::Format, acc: acc2 };
    let s10 = StateV::AfterLeafText { field: Field::Format, acc: acc2, value: ps.format };
    let s11 = StateV::InRevision(acc3);
    let s12 = StateV::InLeaf { field: Field::Model, acc: acc3 };
    let s13 = StateV::AfterLeafText { field: Field::Model, acc: acc3, value: ps.model };
    let s14 = StateV::InRevision(acc4);
    let s15 = StateV::InLeaf { field: Field::Text, acc: acc4 };
    let s16 = StateV::AfterLeafText { field: Field::Text, acc: acc4, value: ps.text };
    let s17 = StateV::InRevision(acc5);
    let s18 = StateV::InPage(acc5);
    assert(b.skip(0) + rest =~= b + rest);
    assert(b.skip(0) + rest =~= seq![b[0]] + (b.skip(1) + rest));
    lemma_run_cons(s0, b[0], b.skip(1) + rest, s1);
    assert(b.skip(1) + rest =~= seq![b[1]] + (b.skip(2) + rest));
    lemma_run_cons(s1, b[1], b.skip(2) + rest, s2);
    assert(b.skip(2) + rest =~= seq![b[2]] + (b.skip(3) + rest));
    lemma_run_cons(s2, b[2], b.skip(3) + rest, s3);
    assert(b.skip(3) + rest =~= seq![b[3]] + (b.skip(4) + rest));
    lemma_run_cons(s3, b[3], b.skip(4) + rest, s4);
    assert(b.skip(4) + rest =~= seq![b[4]] + (b.skip(5) + rest));
    lemma_run_cons(s4, b[4], b.skip(5) + rest, s5);
    assert(b.skip(5) + rest =~= seq![b[5]] + (b.skip(6) + rest));
    lemma_run_cons(s5, b[5], b.skip(6) + rest, s6);
    assert(b.skip(6) + rest =~= seq![b[6]] + (b.skip(7) + rest));
    lemma_run_cons(s6, b[6], b.skip(7) + rest, s7);
    assert(b.skip(7) + rest =~= seq![b[7]] + (b.skip(8) + rest));
    lemma_run_cons(s7, b[7], b.skip(8) + rest, s8);
    assert(b.skip(8) + rest =~= seq![b[8]] + (b.skip(9) + rest));
    lemma_run_cons(s8, b[8], b.skip(9) + rest, s9);
    assert(b.skip(9) + rest =~= seq![b[9]] + (b.skip(10) + rest));
    lemma_run_cons(s9, b[9], b.skip(10) + rest, s10);
    assert(b.skip(10) + rest =~= seq![b[10]] + (b.skip(11) + rest));
    lemma_run_cons(s10, b[10], b.skip(11) + rest, s11);
    assert(b.skip(11) + rest =~= seq![b[11]] + (b.skip(12) + rest));
    lemma_run_cons(s11, b[11], b.skip(12) + rest, s12);
    assert(b.skip(12) + rest =~= seq![b[12]] + (b.skip(13) + rest));
    lemma_run_cons(s12, b[12], b.skip(13) + rest, s13);
    assert(b.skip(13) + rest =~= seq![b[13]] + (b.skip(14) + rest));
    lemma_run_cons(s13, b[13], b.skip(14) + rest, s14);
    assert(b.skip(14) + rest =~= seq![b[14]] + (b.skip(15) + rest));
    lemma_run_cons(s14, b[14], b.skip(15) + rest, s15);
    assert(b.skip(15) + rest =~= seq![b[15]] + (b.skip(16) + rest));
    lemma_run_cons(s15, b[15], b.skip(16) + rest, s16);
    assert(b.skip(16) + rest =~= seq![b[16]] + (b.skip(17) + rest));
    lemma_run_cons(s16, b[16], b.skip(17) + rest, s17);
    assert(b.skip(17) + rest =~= seq![b[17]] + (b.skip(18) + rest));
    lemma_run_cons(s17, b[17], b.skip(18) + rest, s18);
    assert(b.skip(18) + rest =~= seq![b[18]] + rest);
    lemma_run_yield(s18, b[18], rest, StateV::InRoot, ps.page());
}

/// The concatenated blocks of a sequence of fully populated pages.
pub open spec fn blocks_of(specs: Seq<PageSpec>) -> Seq<EventV>
    decreases specs.len(),
{
    if specs.len() == 0 {
        Seq::empty()
    } else {
        specs[0].block() + blocks_of(specs.skip(1))
    }
}

/// A minimal well-formed document: the root element of the export
/// namespace, holding one block per page.
pub open spec fn document_of(specs: Seq<PageSpec>) -> Seq<EventV> {
    seq![mw_start("mediawiki"@)] + (blocks_of(specs) + seq![EventV::End])
}

/// The pages the document describes, in document order.
pub open spec fn pages_of(specs: Seq<PageSpec>) -> Seq<PageV> {
    specs.map_values(|ps: PageSpec| ps.page())
}

proof fn lemma_pages_from_root(specs: Seq<PageSpec>)
    requires
        forall|i: int| 0 <= i < specs.len() ==> (#[trigger] specs[i]).wf(),
    ensures
        yields_pages(StateV::InRoot, blocks_of(specs) + seq![EventV::End], pages_of(specs)),
    decreases specs.len(),
{
    let evs = blocks_of(specs) + seq![EventV::End];
    let pages = pages_of(specs);
    if specs.len() == 0 {
        assert(evs =~= seq![EventV::End]);
        assert(evs[0] == EventV::End);
        assert(run(StateV::InRoot, evs) == RunOutcome::Ended);
        assert(pages.len() == 0);
    } else {
        let tail_evs = blocks_of(specs.skip(1)) + seq![EventV::End];
        assert(evs =~= specs[0].block() + tail_evs);
        lemma_page_block_yields(specs[0], tail_evs);
        lemma_pages_from_root(specs.skip(1));
        assert(pages[0] == specs[0].page());
        assert(pages.skip(1) =~= pages_of(specs.skip(1)));
    }
}

/// Law: a minimal well-formed document with fully populated page elements
/// drives the machine, from its initial state, through exactly one yield per
/// page, in document order, and then to the end of the sequence.
pub proof fn lemma_document_yields_all_pages(specs: Seq<PageSpec>)
    requires
        forall|i: int| 0 <= i < specs.len() ==> (#[trigger] specs[i]).wf(),
    ensures
        yields_pages(StateV::BeforeRoot, document_of(specs), pages_of(specs)),
{
    let doc = document_of(specs);
    let body = blocks_of(specs) + seq![EventV::End];
    lemma_pages_from_root(specs);
    assert(spec_step(StateV::BeforeRoot, mw_start("mediawiki"@)) == OutcomeV::Next(
        StateV::InRoot,
    ));
    assert(doc[0] == mw_start("mediawiki"@));
    assert(doc.skip(1) =~= body);
    assert(run(StateV::BeforeRoot, doc) == run(StateV::InRoot, body));
    let pages = pages_of(specs);
    if pages.len() > 0 {
        assert(yields_pages(StateV::BeforeRoot, doc, pages));
    }
}

/// Law: a root element that is not `mediawiki`, or not in the export
/// namespace, is rejected with a format error at the very first start tag.
pub proof fn lemma_wrong_root_rejected(namespace: Option<Seq<char>>, local: Seq<char>)
    requires
        !(spec_match_namespace(namespace) && local == "mediawiki"@),
    ensures
        spec_step(StateV::BeforeRoot, EventV::Start { namespace, local_name: local })
            == OutcomeV::Fail(ErrorKind::Format),
{
}

/// Law: a `page` element whose end arrives while `ns`, `title` or the
/// revision's `text` is still unset is rejected with a format error.
pub proof fn lemma_incomplete_page_rejected(acc: AccV)
    requires
        !(acc.namespace is Some && acc.text is Some && acc.title is Some),
    ensures
        spec_step(StateV::InPage(acc), EventV::End) == OutcomeV::Fail(ErrorKind::Format),
{
}

/// Law: a second `revision` element inside one `page` — the revision's text
/// is already set — is rejected as not supported, not silently ignored.
pub proof fn lemma_second_revision_not_supported(acc: AccV, namespace: Option<Seq<char>>)
    requires
        acc.text is Some,
        spec_match_namespace(namespace),
    ensures
        spec_step(StateV::InPage(acc), EventV::Start { namespace, local_name: "revision"@ })
            == OutcomeV::Fail(ErrorKind::NotSupported),
{
    lemma_tags_distinct();
}

/// Law: a duplicate scalar field inside `page` — a second `ns` or `title`
/// start tag when the slot is already set — is a format error, raised before
/// the element's content is read.
pub proof fn lemma_duplicate_page_field_rejected(acc: AccV, namespace: Option<Seq<char>>, local: Seq<char>)
    requires
        spec_match_namespace(namespace),
        (local == "ns"@ && acc.namespace is Some) || (local == "title"@ && acc.title is Some),
    ensures
        spec_step(StateV::InPage(acc), EventV::Start { namespace, local_name: local })
            == OutcomeV::Fail(ErrorKind::Format),
{
    lemma_tags_distinct();
}

/// Law: a duplicate scalar field inside `revision` — a second `format`,
/// `model` or `text` start tag when the slot is already set — is a format
/// error.
pub proof fn lemma_duplicate_revision_field_rejected(
    acc: AccV,
    namespace: Option<Seq<char>>,
    local: Seq<char>,
)
    requires
        spec_match_namespace(namespace),
        (local == "format"@ && acc.format is Some) || (local == "model"@ && acc.model is Some) || (
        local == "text"@ && acc.text is Some),
    ensures
        spec_step(StateV::InRevision(acc), EventV::Start { namespace, local_name: local })
            == OutcomeV::Fail(ErrorKind::Format),
{
    lemma_tags_distinct();
}

/// Law: an element with empty content yields the empty string for its field
/// — not an error and not absence — while an empty `ns` element fails,
/// because the empty string is not a decimal number.
pub proof fn lemma_empty_leaf_is_empty_string(field: Field, acc: AccV)
    ensures
        field is Title ==> spec_step(StateV::InLeaf { field, acc }, EventV::End)
            == OutcomeV::Next(StateV::InPage(AccV { title: Some(Seq::empty()), ..acc })),
        field is Format ==> spec_step(StateV::InLeaf { field, acc }, EventV::End)
            == OutcomeV::Next(StateV::InRevision(AccV { format: Some(Seq::empty()), ..acc })),
        field is Model ==> spec_step(StateV::InLeaf { field, acc }, EventV::End)
            == OutcomeV::Next(StateV::InRevision(AccV { model: Some(Seq::empty()), ..acc })),
        field is Text ==> spec_step(StateV::InLeaf { field, acc }, EventV::End)
            == OutcomeV::Next(StateV::InRevision(AccV { text: Some(Seq::empty()), ..acc })),
        field is Ns ==> spec_step(StateV::InLeaf { field, acc }, EventV::End) == OutcomeV::Fail(
            ErrorKind::Format,
        ),
{
}

/// An XML forest as the subtree skipper sees it: a list of complete
/// elements and non-structural events, each followed by its siblings.
pub enum NodeV {
    /// No more siblings.
    Done,
    /// An element: its start tag, its children, its end tag, then siblings.
    Element { namespace: Option<Seq<char>>, local: Seq<char>, children: Box<NodeV>, next: Box<NodeV> },
    /// A single non-structural event, then siblings.
    Flat { event: EventV, next: Box<NodeV> },
}

impl NodeV {
    /// A flat node carries only character data or an ignored event.
    pub open spec fn wf(self) -> bool
        decreases self,
    {
        match self {
            NodeV::Done => true,
            NodeV::Element { children, next, .. } => children.wf() && next.wf(),
            NodeV::Flat { event, next } => (event is Text || event is Other) && next.wf(),
        }
    }

    /// The events of the forest, in document order.
    pub open spec fn events(self) -> Seq<EventV>
        decreases self,
    {
        match self {
            NodeV::Done => Seq::empty(),
            NodeV::Element { namespace, local, children, next } => seq![
                EventV::Start { namespace, local_name: local },
            ] + children.events() + seq![EventV::End] + next.events(),
            NodeV::Flat { event, next } => seq![event] + next.events(),
        }
    }

    /// The deepest element nesting in the forest.
    pub open spec fn height(self) -> nat
        decreases self,
    {
        match self {
            NodeV::Done => 0,
            NodeV::Element { children, next, .. } => {
                let c = children.height() + 1;
                let n = next.height();
                if c >= n {
                    c
                } else {
                    n
                }
            },
            NodeV::Flat { next, .. } => next.height(),
        }
    }
}

/// Skipping a forest of complete subtrees leaves the machine exactly where
/// it was: same depth, same saved state, the following events untouched.
proof fn lemma_skip_forest(n: NodeV, depth: usize, ret: SkipRetV, rest: Seq<EventV>)
    requires
        n.wf(),
        depth + n.height() <= usize::MAX,
    ensures
        run(StateV::Skipping { depth, ret }, n.events() + rest) == run(
            StateV::Skipping { depth, ret },
            rest,
        ),
    decreases n,
{
    let st = StateV::Skipping { depth, ret };
    match n {
        NodeV::Done => {
            assert(n.events() + rest =~= rest);
        },
        NodeV::Flat { event, next } => {
            assert(n.events() + rest =~= seq![event] + (next.events() + rest));
            assert(spec_step(st, event) == OutcomeV::Next(st));
            lemma_run_cons(st, event, next.events() + rest, st);
            lemma_skip_forest(*next, depth, ret, rest);
        },
        NodeV::Element { namespace, local, children, next } => {
            let start = EventV::Start { namespace, local_name: local };
            let deeper = StateV::Skipping { depth: (depth + 1) as usize, ret };
            let after_children = seq![EventV::End] + (next.events() + rest);
            assert(n.events() + rest =~= seq![start] + (children.events() + after_children));
            assert(spec_step(st, start) == OutcomeV::Next(deeper));
            lemma_run_cons(st, start, children.events() + after_children, deeper);
            lemma_skip_forest(*children, (depth + 1) as usize, ret, after_children);
            assert(spec_step(deeper, EventV::End) == OutcomeV::Next(st));
            lemma_run_cons(deeper, EventV::End, next.events() + rest, st);
            lemma_skip_forest(*next, depth, ret, rest);
        },
    }
}

/// Law: an unrecognized element anywhere inside the root, a `page` or a
/// `revision` is skipped whole — however deeply nested its contents — and
/// the machine carries on exactly as before it, with the accumulated fields
/// untouched.
pub proof fn lemma_unrecognized_element_skipped(
    ret: SkipRetV,
    namespace: Option<Seq<char>>,
    local: Seq<char>,
    children: NodeV,
    rest: Seq<EventV>,
)
    requires
        children.wf(),
        children.height() < usize::MAX,
        match ret {
            SkipRetV::Root => !(spec_match_namespace(namespace) && local == "page"@),
            SkipRetV::Page(_) => !(spec_match_namespace(namespace) && (local == "ns"@ || local
                == "revision"@ || local == "title"@)),
            SkipRetV::Revision(_) => !(spec_match_namespace(namespace) && (local == "format"@
                || local == "model"@ || local == "text"@)),
        },
    ensures
        run(
            spec_skip_resume(ret),
            seq![EventV::Start { namespace, local_name: local }] + (children.events() + (seq![
                EventV::End,
            ] + rest)),
        ) == run(spec_skip_resume(ret), rest),
{
    let st = spec_skip_resume(ret);
    let start = EventV::Start { namespace, local_name: local };
    let skipping = StateV::Skipping { depth: 0, ret };
    assert(spec_step(st, start) == OutcomeV::Next(skipping));
    lemma_run_cons(st, start, children.events() + (seq![EventV::End] + rest), skipping);
    lemma_skip_forest(children, 0, ret, seq![EventV::End] + rest);
    assert(spec_step(skipping, EventV::End) == OutcomeV::Next(st));
    lemma_run_cons(skipping, EventV::End, rest, st);
}

} // verus!
