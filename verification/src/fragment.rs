//! The fragment scanner.
//!
//! The document is tokenized by the `pulldown_cmark` crate. Of the events it
//! yields only the literal text counts here: text that the tokenizer hands out
//! as a borrowed slice, with the byte range it stands for in the document.
//! Markers that open or close an image but belong to no image come out as
//! such text, and so does a specifier.

use vstd::prelude::*;
use vstd::string::*;

verus! {

/// A piece of literal text, with the byte range `start..end` that the
/// tokenizer gives for it in the document.
#[derive(Debug, PartialEq, Eq)]
pub struct Fragment {
    pub text: String,
    pub start: usize,
    pub end: usize,
}

/// The mathematical value of a [`Fragment`].
pub struct FragmentView {
    pub text: Seq<char>,
    pub start: nat,
    pub end: nat,
}

impl View for Fragment {
    type V = FragmentView;

    open spec fn view(&self) -> FragmentView {
        FragmentView { text: self.text@, start: self.start as nat, end: self.end as nat }
    }
}

impl DeepView for Fragment {
    type V = FragmentView;

    open spec fn deep_view(&self) -> FragmentView {
        self@
    }
}

/// The events that `pulldown_cmark` yields for a document, in order: for an
/// event of borrowed text the text and its byte range, for any other event
/// `None`.
pub uninterp spec fn markdown_events(content: Seq<char>) -> Seq<Option<FragmentView>>;

/// The fragments among a sequence of events, in order.
pub open spec fn literal_fragments(events: Seq<Option<FragmentView>>) -> Seq<FragmentView>
    decreases events.len(),
{
    if events.len() == 0 {
        Seq::empty()
    } else {
        match events.last() {
            Some(fragment) => literal_fragments(events.drop_last()).push(fragment),
            None => literal_fragments(events.drop_last()),
        }
    }
}

/// The fragments of a document, in order.
pub open spec fn fragments_of(content: Seq<char>) -> Seq<FragmentView> {
    literal_fragments(markdown_events(content))
}

/// Runs `pulldown_cmark::Parser::new` on the document and walks the events of
/// `Parser::into_offset_iter`. Each event becomes one entry: a fragment for
/// `Event::Text` with a borrowed string, `None` for every other event. Nothing
/// is proved of the tokenizer: the entries are only given the name
/// [`markdown_events`].
#[verifier::external_body]
fn tokenize(content: &str) -> (events: Vec<Option<Fragment>>)
    ensures
        events.deep_view() == markdown_events(content@),
{
    pulldown_cmark::Parser::new(content).into_offset_iter().map(
        |(event, span)|
            match event {
                pulldown_cmark::Event::Text(pulldown_cmark::CowStr::Borrowed(text)) => Some(
                    Fragment { text: text.to_string(), start: span.start, end: span.end },
                ),
                _ => None,
            },
    ).collect()
}

/// Keeps the fragments of a sequence of events, in order, and drops the
/// other events.
pub fn collect_fragments(events: &Vec<Option<Fragment>>) -> (fragments: Vec<Fragment>)
    ensures
        fragments.deep_view() == literal_fragments(events.deep_view()),
{
    let mut fragments: Vec<Fragment> = Vec::new();
    let mut i: usize = 0;
    assert(events.deep_view().take(0) =~= Seq::<Option<FragmentView>>::empty());
    while i < events.len()
        invariant
            i <= events.len(),
            fragments.deep_view() == literal_fragments(events.deep_view().take(i as int)),
        decreases events.len() - i,
    {
        let ghost seen = events.deep_view().take(i as int);
        let ghost kept = fragments.deep_view();
        assert(events.deep_view().take(i + 1).drop_last() =~= seen);
        assert(events.deep_view().take(i + 1).last() == events.deep_view()[i as int]);
        match &events[i] {
            Some(fragment) => {
                let copy = Fragment {
                    text: fragment.text.clone(),
                    start: fragment.start,
                    end: fragment.end,
                };
                fragments.push(copy);
                assert(fragments.deep_view() =~= kept.push(fragment@));
            },
            None => {},
        }
        i += 1;
    }
    assert(events.deep_view().take(i as int) =~= events.deep_view());
    fragments
}

/// Scans a document for its fragments.
///
/// The document is tokenized, and the result holds the literal text among the
/// tokenizer's events, in the order of the document. A document without such
/// text gives no fragments; there is no document that is refused.
pub fn scan_fragments(content: &str) -> (fragments: Vec<Fragment>)
    ensures
        fragments.deep_view() == fragments_of(content@),
{
    collect_fragments(&tokenize(content))
}

} // verus!
