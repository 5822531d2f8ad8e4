//! The rewrite of a document: scan, recognize, splice.

use vstd::prelude::*;
use vstd::string::*;
use vstd::utf8::*;
use crate::fragment::{fragments_of, scan_fragments, Fragment, FragmentView};
use crate::recognizer::{
    lemma_no_opener_no_span,
    lemma_no_specifier_no_span,
    recognize,
    recognized,
    OPEN_MARKER,
};
use crate::specifier::specifier_of;
use crate::splice::{splice, spliced};
use crate::text::utf8;

verus! {

/// The bytes of a document after the rewrite, given its fragments: the
/// document with every span that the recognizer emits replaced by the markup
/// of its image.
pub open spec fn rewritten_with(content: Seq<char>, fragments: Seq<FragmentView>) -> Seq<u8> {
    spliced(utf8(content), recognized(utf8(content), fragments))
}

/// A document after the rewrite: the text whose bytes are those of
/// [`rewritten_with`] for the fragments of the document.
pub open spec fn rewritten(content: Seq<char>) -> Seq<char> {
    decode_utf8(rewritten_with(content, fragments_of(content)))
}

/// Rewrites the sized image references that `fragments` show in `content`.
///
/// The fragments are run through the recognizer, and each span it emits is
/// replaced by the markup of its image. All other text is kept byte for byte.
pub fn rewrite_fragments(content: &str, fragments: &Vec<Fragment>) -> (out: String)
    ensures
        utf8(out@) == rewritten_with(content@, fragments.deep_view()),
{
    let spans = recognize(content, fragments);
    splice(content, &spans)
}

/// Rewrites every sized image reference of a Markdown document into an
/// `<img>` element.
///
/// A reference is the marker `![`, an alt text, the marker `]`, and a
/// parenthesized specifier with a target, an optional title in double quotes,
/// `=WIDTHxHEIGHT` with at least one of the two numbers, and an optional
/// alignment word. It is replaced by a paragraph that holds the image. Image
/// references without a size, and everything else in the document, come out
/// unchanged. There is no document that is refused, and the same document
/// always gives the same result.
pub fn preprocess(content: &str) -> (out: String)
    ensures
        out@ == rewritten(content@),
{
    let fragments = scan_fragments(content);
    let out = rewrite_fragments(content, &fragments);
    proof {
        encode_utf8_decode_utf8(out@);
    }
    out
}

/// A document among whose fragments the marker `![` does not occur is not
/// changed by the rewrite.
pub proof fn lemma_without_opener_unchanged(content: Seq<char>)
    requires
        forall|i: int|
            0 <= i < fragments_of(content).len() ==> (#[trigger] fragments_of(content)[i]).text
                != OPEN_MARKER@,
    ensures
        rewritten(content) == content,
{
    lemma_no_opener_no_span(utf8(content), fragments_of(content));
    encode_utf8_decode_utf8(content);
}

/// A document none of whose fragments begins with a specifier that gives a
/// width or a height is not changed by the rewrite. An image reference
/// without a size is thus left as it is, byte for byte.
pub proof fn lemma_without_specifier_unchanged(content: Seq<char>)
    requires
        forall|i: int|
            0 <= i < fragments_of(content).len() ==> specifier_of(
                (#[trigger] fragments_of(content)[i]).text,
            ) is None,
    ensures
        rewritten(content) == content,
{
    lemma_no_specifier_no_span(utf8(content), fragments_of(content));
    encode_utf8_decode_utf8(content);
}

/// A second rewrite changes nothing where the first has left no marker `![`
/// among the fragments of its result.
pub proof fn lemma_second_rewrite_unchanged(content: Seq<char>)
    requires
        forall|i: int|
            0 <= i < fragments_of(rewritten(content)).len() ==> (#[trigger] fragments_of(
                rewritten(content),
            )[i]).text != OPEN_MARKER@,
    ensures
        rewritten(rewritten(content)) == rewritten(content),
{
    lemma_without_opener_unchanged(rewritten(content));
}

} // verus!
