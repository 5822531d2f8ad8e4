//! The span splicer: replaces byte ranges of a document by new text.
//!
//! Offsets are always those of the document as it was given. The output is
//! built front to back from the pieces between the spans and the
//! replacements, so no replacement moves the offsets of a span that comes
//! after it.

use vstd::prelude::*;
use vstd::string::*;
use vstd::utf8::*;
use crate::text::{lemma_utf8_concat, utf8};

verus! {

/// The byte range `start..end` of a document, and the text that takes its
/// place.
#[derive(Debug, PartialEq, Eq)]
pub struct RewriteSpan {
    pub start: usize,
    pub end: usize,
    pub replacement: String,
}

/// The mathematical value of a [`RewriteSpan`].
pub struct SpanView {
    pub start: nat,
    pub end: nat,
    pub replacement: Seq<char>,
}

impl View for RewriteSpan {
    type V = SpanView;

    open spec fn view(&self) -> SpanView {
        SpanView { start: self.start as nat, end: self.end as nat, replacement: self.replacement@ }
    }
}

impl DeepView for RewriteSpan {
    type V = SpanView;

    open spec fn deep_view(&self) -> SpanView {
        self@
    }
}

/// The value of an optional [`RewriteSpan`].
pub open spec fn span_view(span: Option<RewriteSpan>) -> Option<SpanView> {
    match span {
        Some(s) => Some(s@),
        None => None,
    }
}

/// Whether `start..end` is a range of whole characters of the document `doc`
/// that begins at or after `floor`.
pub open spec fn range_fits(doc: Seq<u8>, floor: nat, start: nat, end: nat) -> bool {
    &&& floor <= start <= end <= doc.len()
    &&& is_char_boundary(doc, start as int)
    &&& is_char_boundary(doc, end as int)
}

/// The offset up to which a sequence of spans has used a document: the end of
/// its last span.
pub open spec fn floor_of(spans: Seq<SpanView>) -> nat {
    if spans.len() == 0 {
        0
    } else {
        spans.last().end
    }
}

/// Whether the spans can be spliced into the document `doc`: each is a range
/// of whole characters of the document, they are in ascending order, and no
/// two of them overlap.
pub open spec fn spans_fit(doc: Seq<u8>, spans: Seq<SpanView>) -> bool {
    forall|i: int|
        0 <= i < spans.len() ==> range_fits(
            doc,
            #[trigger] floor_of(spans.take(i)),
            spans[i].start,
            spans[i].end,
        )
}

/// The document `doc` with the range of each span replaced by the span's
/// text: what comes before the last span, itself spliced with the spans
/// before; then the last span's text; then what comes after it.
pub open spec fn spliced(doc: Seq<u8>, spans: Seq<SpanView>) -> Seq<u8>
    decreases spans.len(),
{
    if spans.len() == 0 {
        doc
    } else {
        let last = spans.last();
        spliced(doc.subrange(0, last.start as int), spans.drop_last()) + utf8(last.replacement)
            + doc.subrange(last.end as int, doc.len() as int)
    }
}

/// Splicing leaves what comes after the last span as it is: the document can
/// be cut anywhere behind that span and the rest appended afterwards.
pub proof fn lemma_spliced_tail(doc: Seq<u8>, spans: Seq<SpanView>, cut: int)
    requires
        floor_of(spans) <= cut <= doc.len(),
        spans.len() > 0 ==> spans.last().start <= spans.last().end,
    ensures
        spliced(doc, spans) == spliced(doc.subrange(0, cut), spans) + doc.subrange(
            cut,
            doc.len() as int,
        ),
{
    let head = doc.subrange(0, cut);
    let tail = doc.subrange(cut, doc.len() as int);
    if spans.len() == 0 {
        assert(doc =~= head + tail);
    } else {
        let last = spans.last();
        assert(head.subrange(0, last.start as int) =~= doc.subrange(0, last.start as int));
        assert(head.subrange(last.end as int, head.len() as int) + tail =~= doc.subrange(
            last.end as int,
            doc.len() as int,
        ));
        let front = spliced(doc.subrange(0, last.start as int), spans.drop_last()) + utf8(
            last.replacement,
        );
        assert(front + (head.subrange(last.end as int, head.len() as int) + tail) =~= front
            + head.subrange(last.end as int, head.len() as int) + tail);
    }
}

/// The document `doc` with the range of one span replaced by the span's text.
pub open spec fn replaced(doc: Seq<u8>, span: SpanView) -> Seq<u8> {
    doc.subrange(0, span.start as int) + utf8(span.replacement) + doc.subrange(
        span.end as int,
        doc.len() as int,
    )
}

/// The spans replaced one after the other in the text as it then stands, the
/// last span first.
pub open spec fn replaced_last_to_first(doc: Seq<u8>, spans: Seq<SpanView>) -> Seq<u8>
    decreases spans.len(),
{
    if spans.len() == 0 {
        doc
    } else {
        replaced_last_to_first(replaced(doc, spans.last()), spans.drop_last())
    }
}

/// Whether the spans are ranges of a document of `len` bytes in ascending
/// order, no two of which overlap.
pub open spec fn spans_ordered(len: nat, spans: Seq<SpanView>) -> bool {
    forall|i: int|
        0 <= i < spans.len() ==> {
            &&& (#[trigger] floor_of(spans.take(i))) <= spans[i].start
            &&& spans[i].start <= spans[i].end
            &&& spans[i].end <= len
        }
}

/// Spans that can be spliced into a document are ordered in it.
pub proof fn lemma_fitting_spans_ordered(doc: Seq<u8>, spans: Seq<SpanView>)
    requires
        spans_fit(doc, spans),
    ensures
        spans_ordered(doc.len(), spans),
{
    assert forall|i: int| 0 <= i < spans.len() implies {
        &&& (#[trigger] floor_of(spans.take(i))) <= spans[i].start
        &&& spans[i].start <= spans[i].end
        &&& spans[i].end <= doc.len()
    } by {
        assert(range_fits(doc, floor_of(spans.take(i)), spans[i].start, spans[i].end));
    }
}

/// Replacing the spans one by one from the last to the first gives the
/// spliced document: a replacement moves no offset of a span in front of it,
/// so the offsets of the document as it was given stay good throughout.
pub proof fn lemma_spliced_last_to_first(doc: Seq<u8>, spans: Seq<SpanView>)
    requires
        spans_ordered(doc.len(), spans),
    ensures
        replaced_last_to_first(doc, spans) == spliced(doc, spans),
    decreases spans.len(),
{
    if spans.len() > 0 {
        let last = spans.last();
        let front = spans.drop_last();
        let next = replaced(doc, last);
        lemma_ordered_front(doc.len(), spans);
        lemma_ordered_within(last.start, next.len(), front);
        lemma_spliced_last_to_first(next, front);
        if front.len() > 0 {
            assert(floor_of(front.take(front.len() - 1)) <= front.last().start);
        }
        lemma_spliced_tail(next, front, last.start as int);
        assert(next.subrange(0, last.start as int) =~= doc.subrange(0, last.start as int));
        assert(next.subrange(last.start as int, next.len() as int) =~= utf8(last.replacement)
            + doc.subrange(last.end as int, doc.len() as int));
        let head = spliced(doc.subrange(0, last.start as int), front);
        assert(head + (utf8(last.replacement) + doc.subrange(last.end as int, doc.len() as int))
            =~= head + utf8(last.replacement) + doc.subrange(last.end as int, doc.len() as int));
    }
}

/// Of ordered spans, those in front of the last are ordered too, and they end
/// where the last begins or before.
proof fn lemma_ordered_front(len: nat, spans: Seq<SpanView>)
    requires
        spans_ordered(len, spans),
        spans.len() > 0,
    ensures
        floor_of(spans.drop_last()) <= spans.last().start <= spans.last().end <= len,
        spans_ordered(spans.last().start, spans.drop_last()),
{
    let front = spans.drop_last();
    assert(spans.take(spans.len() - 1) =~= front);
    assert(floor_of(spans.take(spans.len() - 1)) <= spans.last().start);
    assert forall|i: int| 0 <= i < front.len() implies (#[trigger] floor_of(front.take(i)))
        <= front[i].start <= front[i].end <= spans.last().start by {
        assert(front.take(i) =~= spans.take(i));
        assert(floor_of(spans.take(i)) <= spans[i].start <= spans[i].end);
        lemma_ordered_ends(len, spans, i);
    }
}

/// Spans that are ordered in a document are ordered in a longer one.
proof fn lemma_ordered_within(len: nat, longer: nat, spans: Seq<SpanView>)
    requires
        spans_ordered(len, spans),
        len <= longer,
    ensures
        spans_ordered(longer, spans),
{
    assert forall|i: int| 0 <= i < spans.len() implies (#[trigger] floor_of(spans.take(i)))
        <= spans[i].start <= spans[i].end <= longer by {
        assert(floor_of(spans.take(i)) <= spans[i].start);
    }
}

/// In ordered spans each span but the last ends where the last begins or
/// before.
proof fn lemma_ordered_ends(len: nat, spans: Seq<SpanView>, i: int)
    requires
        spans_ordered(len, spans),
        0 <= i < spans.len() - 1,
    ensures
        spans[i].end <= spans.last().start,
    decreases spans.len() - i,
{
    assert(spans.take(i + 1).last() == spans[i]);
    assert(floor_of(spans.take(i + 1)) <= spans[i + 1].start <= spans[i + 1].end);
    if i + 1 < spans.len() - 1 {
        lemma_ordered_ends(len, spans, i + 1);
    }
}

/// A character boundary of a document behind `from` is a character boundary
/// of what follows `from`.
proof fn lemma_boundary_in_suffix(doc: Seq<u8>, from: int, at: int)
    requires
        valid_utf8(doc),
        0 <= from <= at <= doc.len(),
        is_char_boundary(doc, from),
        is_char_boundary(doc, at),
    ensures
        valid_utf8(doc.subrange(from, doc.len() as int)),
        is_char_boundary(doc.subrange(from, doc.len() as int), at - from),
{
    let suffix = doc.subrange(from, doc.len() as int);
    valid_utf8_split(doc, from);
    if at == doc.len() {
        is_char_boundary_start_end_of_seq(suffix);
    } else {
        is_char_boundary_iff_not_is_continuation_byte(doc, at);
        is_char_boundary_iff_not_is_continuation_byte(suffix, at - from);
    }
}

/// Replaces the range of each span in `content` by the span's text.
///
/// The spans are in ascending order and do not overlap, and each covers whole
/// characters of the document. The result is the document with every span
/// replaced; all that lies outside the spans is kept byte for byte.
pub fn splice(content: &str, spans: &Vec<RewriteSpan>) -> (out: String)
    requires
        spans_fit(utf8(content@), spans.deep_view()),
    ensures
        utf8(out@) == spliced(utf8(content@), spans.deep_view()),
{
    let ghost doc = utf8(content@);
    let ghost all = spans.deep_view();
    let mut out = String::new();
    let mut rest: &str = content;
    let mut cursor: usize = 0;
    let mut i: usize = 0;
    proof {
        encode_utf8_valid_utf8(content@);
        assert(doc.subrange(0, doc.len() as int) =~= doc);
        assert(all.take(0) =~= Seq::<SpanView>::empty());
        assert(doc.subrange(0, 0) =~= Seq::<u8>::empty());
        assert(utf8(out@) =~= Seq::<u8>::empty());
    }
    while i < spans.len()
        invariant
            doc == utf8(content@),
            all == spans.deep_view(),
            valid_utf8(doc),
            spans_fit(doc, all),
            i <= spans.len(),
            cursor == floor_of(all.take(i as int)),
            cursor <= doc.len(),
            is_char_boundary(doc, cursor as int),
            utf8(rest@) == doc.subrange(cursor as int, doc.len() as int),
            utf8(out@) == spliced(doc.subrange(0, cursor as int), all.take(i as int)),
        decreases spans.len() - i,
    {
        let span = &spans[i];
        let ghost done = all.take(i as int);
        let ghost written = out@;
        proof {
            assert(all[i as int] == span@);
            assert(range_fits(
                doc,
                floor_of(all.take(i as int)),
                span.start as nat,
                span.end as nat,
            ));
            lemma_boundary_in_suffix(doc, cursor as int, span.start as int);
        }
        let (gap, tail) = rest.split_at(span.start - cursor);
        proof {
            assert(utf8(tail@) =~= doc.subrange(span.start as int, doc.len() as int));
            assert(utf8(gap@) =~= doc.subrange(cursor as int, span.start as int));
            lemma_boundary_in_suffix(doc, span.start as int, span.end as int);
        }
        let (_, after) = tail.split_at(span.end - span.start);
        out.append(gap);
        out.append(span.replacement.as_str());
        proof {
            assert(utf8(after@) =~= doc.subrange(span.end as int, doc.len() as int));
            lemma_utf8_concat(written, gap@);
            lemma_utf8_concat(written + gap@, span.replacement@);
            let upto_start = doc.subrange(0, span.start as int);
            let upto_end = doc.subrange(0, span.end as int);
            let next = all.take(i + 1);
            assert(next.last() == span@);
            assert(next.drop_last() =~= done);
            // What was written before this span, with the gap, is the document up to
            // the span's start, spliced with the spans before it.
            assert(done.len() > 0 ==> done.last() == all[i - 1]);
            assert(done.len() > 0 ==> range_fits(
                doc,
                floor_of(all.take(i - 1)),
                all[i - 1].start,
                all[i - 1].end,
            ));
            lemma_spliced_tail(upto_start, done, cursor as int);
            assert(upto_start.subrange(0, cursor as int) =~= doc.subrange(0, cursor as int));
            assert(upto_start.subrange(cursor as int, upto_start.len() as int) =~= doc.subrange(
                cursor as int,
                span.start as int,
            ));
            assert(upto_end.subrange(0, span.start as int) =~= upto_start);
            assert(upto_end.subrange(span.end as int, upto_end.len() as int) =~= Seq::<
                u8,
            >::empty());
            assert(spliced(upto_end, next) =~= spliced(upto_start, done) + utf8(
                span.replacement@,
            ));
        }
        rest = after;
        cursor = span.end;
        i += 1;
    }
    let ghost written = out@;
    out.append(rest);
    proof {
        assert(all.take(i as int) =~= all);
        lemma_utf8_concat(written, rest@);
        assert(all.len() > 0 ==> range_fits(
            doc,
            floor_of(all.take(all.len() - 1)),
            all[all.len() - 1].start,
            all[all.len() - 1].end,
        ));
        lemma_spliced_tail(doc, all, cursor as int);
    }
    out
}

} // verus!
