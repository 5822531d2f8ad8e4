//! The pattern recognizer: a state machine over the fragments of a document.
//!
//! A sized image reference reaches the recognizer as a run of fragments: the
//! marker `![`, the alt text if there is any, the marker `]`, and a fragment
//! that begins with the specifier. The machine follows such a run and, when
//! the last fragment parses as a specifier, emits the span that covers the
//! run from the first byte of `![` to the closing parenthesis. A run that
//! breaks off is forgotten, and the text it covered stays as it is.
//!
//! References inside one another are not followed as such. A second `![`
//! before the `]` begins the run anew, so of two sized references of which
//! one stands in the alt text of the other, the inner one is rewritten and the
//! rest of the outer one stays text. Where the tokenizer reads the inner one
//! as an image of its own, only its alt text reaches the machine, and the
//! outer reference is rewritten as a whole with that alt text.

use vstd::prelude::*;
use vstd::string::*;
use crate::fragment::{Fragment, FragmentView};
use crate::html::{image_html, render_image};
use crate::specifier::{parse_specifier, specifier_of};
use crate::splice::{floor_of, range_fits, span_view, spans_fit, RewriteSpan, SpanView};
use crate::text::{same_text, utf8};

verus! {

/// The fragment that opens an image reference.
pub const OPEN_MARKER: &'static str = "![";

/// The fragment that closes the alt text.
pub const CLOSE_MARKER: &'static str = "]";

/// How far the recognizer is into a run of fragments. The two states inside a
/// run carry the offset of the run's first byte and the alt text seen so far.
#[derive(Debug, PartialEq, Eq)]
pub enum RecognitionState {
    /// Outside any run.
    Idle,
    /// After `![`, before `]`.
    AwaitingClose { start: usize, alt: String },
    /// After `]`: the next fragment is the specifier, or the run breaks off.
    AwaitingSpec { start: usize, alt: String },
}

/// The mathematical value of a [`RecognitionState`].
pub enum StateView {
    Idle,
    AwaitingClose { start: nat, alt: Seq<char> },
    AwaitingSpec { start: nat, alt: Seq<char> },
}

impl View for RecognitionState {
    type V = StateView;

    open spec fn view(&self) -> StateView {
        match self {
            RecognitionState::Idle => StateView::Idle,
            RecognitionState::AwaitingClose { start, alt } => StateView::AwaitingClose {
                start: *start as nat,
                alt: alt@,
            },
            RecognitionState::AwaitingSpec { start, alt } => StateView::AwaitingSpec {
                start: *start as nat,
                alt: alt@,
            },
        }
    }
}

/// The span for a run that began at `start` with the alt text `alt` and now
/// meets `fragment` where its specifier should be.
///
/// There is a span where the fragment begins with a specifier and the range
/// from `start` to the specifier's last byte is a range of whole characters of
/// the document at or after `floor`. It covers that range, and its text is the
/// markup of the image.
pub open spec fn candidate(
    doc: Seq<u8>,
    floor: nat,
    start: nat,
    alt: Seq<char>,
    fragment: FragmentView,
) -> Option<SpanView> {
    match specifier_of(fragment.text) {
        Some(specifier) => {
            let end = fragment.start + specifier.len;
            if range_fits(doc, floor, start, end) {
                Some(SpanView { start, end, replacement: image_html(specifier.image, alt) })
            } else {
                None
            }
        },
        None => None,
    }
}

/// One step of the machine: the state after `fragment`, and the span that the
/// fragment completes, if it completes one.
///
/// - Outside a run, `![` begins one at the fragment's offset; any other
///   fragment is passed over.
/// - Before `]`, another `![` begins the run anew at its own offset, `]` ends
///   the alt text, and any other fragment becomes the alt text.
/// - After `]`, the fragment ends the run: with a span if it is a specifier
///   that [`candidate`] accepts, without one if not.
pub open spec fn step(doc: Seq<u8>, floor: nat, state: StateView, fragment: FragmentView) -> (
    StateView,
    Option<SpanView>,
) {
    match state {
        StateView::Idle => {
            if fragment.text == OPEN_MARKER@ {
                (StateView::AwaitingClose { start: fragment.start, alt: Seq::empty() }, None)
            } else {
                (StateView::Idle, None)
            }
        },
        StateView::AwaitingClose { start, alt } => {
            if fragment.text == OPEN_MARKER@ {
                (StateView::AwaitingClose { start: fragment.start, alt: Seq::empty() }, None)
            } else if fragment.text == CLOSE_MARKER@ {
                (StateView::AwaitingSpec { start, alt }, None)
            } else {
                (StateView::AwaitingClose { start, alt: fragment.text }, None)
            }
        },
        StateView::AwaitingSpec { start, alt } => (
            StateView::Idle,
            candidate(doc, floor, start, alt, fragment),
        ),
    }
}

/// The machine run over a sequence of fragments from the idle state: the state
/// it ends in, and the spans it has emitted, in order. Each step sees as its
/// floor the end of the last span emitted before it.
pub open spec fn scan(doc: Seq<u8>, fragments: Seq<FragmentView>) -> (StateView, Seq<SpanView>)
    decreases fragments.len(),
{
    if fragments.len() == 0 {
        (StateView::Idle, Seq::empty())
    } else {
        let (state, spans) = scan(doc, fragments.drop_last());
        let (next, span) = step(doc, floor_of(spans), state, fragments.last());
        match span {
            Some(span) => (next, spans.push(span)),
            None => (next, spans),
        }
    }
}

/// The spans that the machine emits for a sequence of fragments.
pub open spec fn recognized(doc: Seq<u8>, fragments: Seq<FragmentView>) -> Seq<SpanView> {
    scan(doc, fragments).1
}

/// Builds the span for a run that began at `start` with the alt text `alt`
/// and now meets `fragment` where its specifier should be.
///
/// The result is `None` where the fragment does not begin with a specifier
/// that gives a width or a height, and where the range from `start` to the
/// specifier's last byte is no range of whole characters of `content` at or
/// after `floor`.
pub fn candidate_span(
    content: &str,
    floor: usize,
    start: usize,
    alt: &str,
    fragment: &Fragment,
) -> (span: Option<RewriteSpan>)
    ensures
        span_view(span) == candidate(utf8(content@), floor as nat, start as nat, alt@, fragment@),
{
    let specifier = match parse_specifier(fragment.text.as_str()) {
        Some(specifier) => specifier,
        None => {
            return None;
        },
    };
    let len = content.as_bytes().len();
    let end = match fragment.start.checked_add(specifier.len) {
        Some(end) => end,
        None => {
            return None;
        },
    };
    if floor <= start && start <= end && end <= len && content.is_char_boundary(start)
        && content.is_char_boundary(end) {
        Some(RewriteSpan { start, end, replacement: render_image(&specifier.image, alt) })
    } else {
        None
    }
}

/// Takes the machine one fragment further.
///
/// The result is the state after the fragment and the span that the fragment
/// completes, if it completes one, as [`step`] gives them. `floor` is the end
/// of the last span emitted so far, or zero: no span begins before it.
pub fn advance(
    content: &str,
    floor: usize,
    state: RecognitionState,
    fragment: &Fragment,
) -> (next: (RecognitionState, Option<RewriteSpan>))
    ensures
        next.0@ == step(utf8(content@), floor as nat, state@, fragment@).0,
        span_view(next.1) == step(utf8(content@), floor as nat, state@, fragment@).1,
{
    match state {
        RecognitionState::Idle => {
            if same_text(fragment.text.as_str(), OPEN_MARKER) {
                let run = RecognitionState::AwaitingClose {
                    start: fragment.start,
                    alt: String::new(),
                };
                (run, None)
            } else {
                (RecognitionState::Idle, None)
            }
        },
        RecognitionState::AwaitingClose { start, alt } => {
            if same_text(fragment.text.as_str(), OPEN_MARKER) {
                let run = RecognitionState::AwaitingClose {
                    start: fragment.start,
                    alt: String::new(),
                };
                (run, None)
            } else if same_text(fragment.text.as_str(), CLOSE_MARKER) {
                (RecognitionState::AwaitingSpec { start, alt }, None)
            } else {
                (RecognitionState::AwaitingClose { start, alt: fragment.text.clone() }, None)
            }
        },
        RecognitionState::AwaitingSpec { start, alt } => {
            let span = candidate_span(content, floor, start, alt.as_str(), fragment);
            (RecognitionState::Idle, span)
        },
    }
}

/// Runs the machine over the fragments of a document and collects the spans.
///
/// The spans come out in the order of the document, and they can always be
/// spliced into it: each is a range of whole characters, and none begins
/// before the one in front of it ends.
pub fn recognize(content: &str, fragments: &Vec<Fragment>) -> (spans: Vec<RewriteSpan>)
    ensures
        spans.deep_view() == recognized(utf8(content@), fragments.deep_view()),
        spans_fit(utf8(content@), spans.deep_view()),
{
    let ghost doc = utf8(content@);
    let ghost all = fragments.deep_view();
    let mut spans: Vec<RewriteSpan> = Vec::new();
    let mut state = RecognitionState::Idle;
    let mut floor: usize = 0;
    let mut i: usize = 0;
    assert(all.take(0) =~= Seq::<FragmentView>::empty());
    while i < fragments.len()
        invariant
            doc == utf8(content@),
            all == fragments.deep_view(),
            i <= fragments.len(),
            (state@, spans.deep_view()) == scan(doc, all.take(i as int)),
            floor == floor_of(spans.deep_view()),
        decreases fragments.len() - i,
    {
        let ghost emitted = spans.deep_view();
        proof {
            assert(all.take(i + 1).drop_last() =~= all.take(i as int));
            assert(all.take(i + 1).last() == fragments[i as int]@);
        }
        let (next, span) = advance(content, floor, state, &fragments[i]);
        state = next;
        match span {
            Some(span) => {
                floor = span.end;
                spans.push(span);
                assert(spans.deep_view() =~= emitted.push(span@));
            },
            None => {},
        }
        i += 1;
    }
    proof {
        assert(all.take(i as int) =~= all);
        lemma_recognized_spans_fit(doc, all);
    }
    spans
}

/// The spans that the machine emits can be spliced into the document: they
/// are ranges of whole characters in ascending order, and no two overlap.
pub proof fn lemma_recognized_spans_fit(doc: Seq<u8>, fragments: Seq<FragmentView>)
    ensures
        spans_fit(doc, recognized(doc, fragments)),
    decreases fragments.len(),
{
    if fragments.len() > 0 {
        lemma_recognized_spans_fit(doc, fragments.drop_last());
        let (state, spans) = scan(doc, fragments.drop_last());
        let span = step(doc, floor_of(spans), state, fragments.last()).1;
        if let Some(span) = span {
            let now = spans.push(span);
            assert(now.take(spans.len() as int) =~= spans);
            assert forall|k: int| 0 <= k < now.len() implies range_fits(
                doc,
                #[trigger] floor_of(now.take(k)),
                now[k].start,
                now[k].end,
            ) by {
                if k < spans.len() {
                    assert(now.take(k) =~= spans.take(k));
                }
            }
        }
    }
}

/// Without the marker `![` among the fragments the machine never leaves the
/// idle state, and emits no span.
pub proof fn lemma_no_opener_no_span(doc: Seq<u8>, fragments: Seq<FragmentView>)
    requires
        forall|i: int| 0 <= i < fragments.len() ==> (#[trigger] fragments[i]).text != OPEN_MARKER@,
    ensures
        scan(doc, fragments) == (StateView::Idle, Seq::<SpanView>::empty()),
    decreases fragments.len(),
{
    if fragments.len() > 0 {
        lemma_no_opener_no_span(doc, fragments.drop_last());
        assert(fragments.last() == fragments[fragments.len() - 1]);
    }
}

/// Where no fragment begins with a specifier that gives a width or a height,
/// the machine emits no span: an image reference without a size is not
/// touched.
pub proof fn lemma_no_specifier_no_span(doc: Seq<u8>, fragments: Seq<FragmentView>)
    requires
        forall|i: int|
            0 <= i < fragments.len() ==> specifier_of((#[trigger] fragments[i]).text) is None,
    ensures
        recognized(doc, fragments) == Seq::<SpanView>::empty(),
    decreases fragments.len(),
{
    if fragments.len() > 0 {
        lemma_no_specifier_no_span(doc, fragments.drop_last());
        assert(fragments.last() == fragments[fragments.len() - 1]);
    }
}

} // verus!
