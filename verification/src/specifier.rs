//! The specifier parser.
//!
//! A specifier is the parenthesized text that follows the alt text of a sized
//! image reference:
//!
//! ```text
//! ( URL (WS "TITLE")? WS? = WIDTH? x HEIGHT? (WS ALIGN)? WS? )
//! ```
//!
//! `URL` is the run of characters up to the first whitespace, `WS` a run of
//! whitespace, `WIDTH` and `HEIGHT` are runs of digits and `ALIGN` is a word.
//! A specifier begins with the first byte of the text it is looked for in, and
//! the text may go on behind its closing parenthesis. The grammar is written
//! as a regular expression and matched by the `regex` crate; what is done with
//! the groups it captures is verified here.

use vstd::prelude::*;
use vstd::string::*;
use crate::text::same_text;

verus! {

/// The grammar of a specifier, anchored at the start of the text it is
/// matched against.
pub const SPECIFIER_PATTERN: &'static str =
    r#"^\((?<url>\S+)\s+(?:"(?<title>.+)"\s*)?=(?<width>\d+)?x(?<height>\d+)?(?<align>\s+\w+)?\s*\)"#;

/// The number of groups of [`SPECIFIER_PATTERN`], the whole match included.
pub const GROUP_COUNT: usize = 6;

/// The group of the image's target.
pub const URL_GROUP: usize = 1;

/// The group of the title, without its quotes.
pub const TITLE_GROUP: usize = 2;

/// The group of the width.
pub const WIDTH_GROUP: usize = 3;

/// The group of the height.
pub const HEIGHT_GROUP: usize = 4;

/// The group of the alignment word, with the whitespace in front of it.
pub const ALIGN_GROUP: usize = 5;

/// Where an image is placed on the line.
#[derive(Clone, Copy, Debug, PartialEq, Eq, Structural)]
pub enum Align {
    Left,
    Center,
    Right,
    /// A word that names no placement.
    Other,
}

/// The fields of a specifier. A field that the specifier leaves out is empty.
#[derive(Debug, PartialEq, Eq)]
pub struct ImageSpec {
    pub url: String,
    pub title: String,
    pub width: String,
    pub height: String,
    pub align: Option<Align>,
}

/// The mathematical value of an [`ImageSpec`].
pub struct ImageSpecView {
    pub url: Seq<char>,
    pub title: Seq<char>,
    pub width: Seq<char>,
    pub height: Seq<char>,
    pub align: Option<Align>,
}

impl ImageSpecView {
    /// A specifier gives at least one of width and height.
    pub open spec fn is_sized(self) -> bool {
        self.width.len() > 0 || self.height.len() > 0
    }
}

impl View for ImageSpec {
    type V = ImageSpecView;

    open spec fn view(&self) -> ImageSpecView {
        ImageSpecView {
            url: self.url@,
            title: self.title@,
            width: self.width@,
            height: self.height@,
            align: self.align,
        }
    }
}

/// A specifier found at the start of a text: its fields, and the number of
/// bytes of the text that it takes up, closing parenthesis included.
#[derive(Debug, PartialEq, Eq)]
pub struct Specifier {
    pub image: ImageSpec,
    pub len: usize,
}

/// The mathematical value of a [`Specifier`].
pub struct SpecifierView {
    pub image: ImageSpecView,
    pub len: nat,
}

impl View for Specifier {
    type V = SpecifierView;

    open spec fn view(&self) -> SpecifierView {
        SpecifierView { image: self.image@, len: self.len as nat }
    }
}

/// What a regular expression captured in a text: the byte range of the whole
/// match, and the text of each group, in the order of their opening
/// parentheses. A group that took no part in the match is `None`.
#[derive(Debug, PartialEq, Eq)]
pub struct Captured {
    pub start: usize,
    pub end: usize,
    pub groups: Vec<Option<String>>,
}

/// The mathematical value of a [`Captured`].
pub struct CapturedView {
    pub start: nat,
    pub end: nat,
    pub groups: Seq<Option<Seq<char>>>,
}

impl View for Captured {
    type V = CapturedView;

    open spec fn view(&self) -> CapturedView {
        CapturedView {
            start: self.start as nat,
            end: self.end as nat,
            groups: self.groups.deep_view(),
        }
    }
}

/// The value of an optional [`Captured`].
pub open spec fn captured_view(found: Option<Captured>) -> Option<CapturedView> {
    match found {
        Some(c) => Some(c@),
        None => None,
    }
}

/// The value of an optional [`Specifier`].
pub open spec fn specifier_view(found: Option<Specifier>) -> Option<SpecifierView> {
    match found {
        Some(s) => Some(s@),
        None => None,
    }
}

/// What the `regex` crate captures when it searches `haystack` for the first
/// match of `pattern`; `None` where there is no match, or no such pattern.
pub uninterp spec fn regex_captures(pattern: Seq<char>, haystack: Seq<char>) -> Option<
    CapturedView,
>;

/// What `str::trim` leaves of a text.
pub uninterp spec fn trimmed(text: Seq<char>) -> Seq<char>;

/// What `str::to_lowercase` makes of a text.
pub uninterp spec fn lowercased(text: Seq<char>) -> Seq<char>;

/// Compiles `pattern` with `regex::Regex::new` and searches `haystack` with
/// `Regex::captures`. Nothing is proved of the search: its outcome is only
/// given the name [`regex_captures`]. A pattern that does not compile comes
/// back as `None`, like a search without a match.
#[verifier::external_body]
fn find_captures(pattern: &str, haystack: &str) -> (found: Option<Captured>)
    ensures
        captured_view(found) == regex_captures(pattern@, haystack@),
{
    let re = regex::Regex::new(pattern).ok()?;
    let caps = re.captures(haystack)?;
    let whole = caps.get_match();
    Some(
        Captured {
            start: whole.start(),
            end: whole.end(),
            groups: caps.iter().map(|m| m.map(|m| m.as_str().to_string())).collect(),
        },
    )
}

/// `str::trim`: the text without the whitespace at its two ends. Which
/// characters count as whitespace is left to the standard library, so the
/// result is only given the name [`trimmed`].
#[verifier::external_body]
fn trim(text: &str) -> (inner: &str)
    ensures
        inner@ == trimmed(text@),
{
    text.trim()
}

/// `str::to_lowercase`: the text in lower case. The case mapping is left to
/// the standard library, so the result is only given the name [`lowercased`].
#[verifier::external_body]
fn to_lowercase(text: &str) -> (lower: String)
    ensures
        lower@ == lowercased(text@),
{
    text.to_lowercase()
}

/// The placement that a word names, once it is trimmed and in lower case.
pub open spec fn classified(word: Seq<char>) -> Align {
    if word == "center"@ {
        Align::Center
    } else if word == "right"@ {
        Align::Right
    } else if word == "left"@ {
        Align::Left
    } else {
        Align::Other
    }
}

/// The placement that an alignment word names, whatever its case and the
/// whitespace around it.
pub open spec fn alignment(word: Seq<char>) -> Align {
    classified(lowercased(trimmed(word)))
}

/// Alignment words that are the same once trimmed and in lower case name the
/// same placement: neither case nor the whitespace around a word counts.
pub proof fn lemma_alignment_ignores_case_and_padding(a: Seq<char>, b: Seq<char>)
    requires
        lowercased(trimmed(a)) == lowercased(trimmed(b)),
    ensures
        alignment(a) == alignment(b),
{
}

/// The text of group `i`, empty where the group took no part in the match.
pub open spec fn group_text(groups: Seq<Option<Seq<char>>>, i: int) -> Seq<char> {
    match groups[i] {
        Some(text) => text,
        None => Seq::empty(),
    }
}

/// The fields that a match of [`SPECIFIER_PATTERN`] stands for.
pub open spec fn image_of_groups(groups: Seq<Option<Seq<char>>>) -> ImageSpecView {
    ImageSpecView {
        url: group_text(groups, URL_GROUP as int),
        title: group_text(groups, TITLE_GROUP as int),
        width: group_text(groups, WIDTH_GROUP as int),
        height: group_text(groups, HEIGHT_GROUP as int),
        align: match groups[ALIGN_GROUP as int] {
            Some(word) => Some(alignment(word)),
            None => None,
        },
    }
}

/// Whether a search result is a specifier: a match that begins with the
/// text's first byte, has the groups of the grammar and a target, and gives a
/// width or a height.
pub open spec fn is_specifier(found: Option<CapturedView>) -> bool {
    match found {
        Some(c) => {
            &&& c.start == 0
            &&& c.groups.len() == GROUP_COUNT
            &&& c.groups[URL_GROUP as int] is Some
            &&& image_of_groups(c.groups).is_sized()
        },
        None => false,
    }
}

/// The specifier that a search result stands for, if it is one.
pub open spec fn specifier_of_captures(found: Option<CapturedView>) -> Option<SpecifierView> {
    if is_specifier(found) {
        Some(SpecifierView { image: image_of_groups(found->0.groups), len: found->0.end })
    } else {
        None
    }
}

/// The specifier at the start of a text, if there is one.
pub open spec fn specifier_of(text: Seq<char>) -> Option<SpecifierView> {
    specifier_of_captures(regex_captures(SPECIFIER_PATTERN@, text))
}

/// Tells which placement a word names. The word is compared as it stands:
/// `"center"`, `"right"` and `"left"` are the three placements, and every
/// other word is [`Align::Other`].
pub fn classify_alignment(word: &str) -> (align: Align)
    ensures
        align == classified(word@),
{
    if same_text(word, "center") {
        Align::Center
    } else if same_text(word, "right") {
        Align::Right
    } else if same_text(word, "left") {
        Align::Left
    } else {
        Align::Other
    }
}

/// Tells which placement an alignment word names, whatever its case and the
/// whitespace around it.
pub fn alignment_of(word: &str) -> (align: Align)
    ensures
        align == alignment(word@),
{
    let lower = to_lowercase(trim(word));
    classify_alignment(lower.as_str())
}

/// The text of group `i` of a match, empty where the group took no part.
fn text_of_group(groups: &Vec<Option<String>>, i: usize) -> (text: String)
    requires
        i < groups.len(),
    ensures
        text@ == group_text(groups.deep_view(), i as int),
{
    match &groups[i] {
        Some(text) => text.clone(),
        None => String::new(),
    }
}

/// Turns the result of a search for [`SPECIFIER_PATTERN`] into a specifier.
///
/// The result is `Some` exactly when the search found a match that begins with
/// the first byte of the text, has the six groups of the grammar and a
/// target, and gives a width or a height. Without both numbers the text is an
/// ordinary image reference and not a specifier.
pub fn specifier_from_captures(found: Option<Captured>) -> (specifier: Option<Specifier>)
    ensures
        specifier_view(specifier) == specifier_of_captures(captured_view(found)),
{
    let c = match found {
        Some(c) => c,
        None => {
            return None;
        },
    };
    if c.start != 0 || c.groups.len() != GROUP_COUNT {
        return None;
    }
    if c.groups[URL_GROUP].is_none() {
        return None;
    }
    let width = text_of_group(&c.groups, WIDTH_GROUP);
    let height = text_of_group(&c.groups, HEIGHT_GROUP);
    if width.as_str().is_empty() && height.as_str().is_empty() {
        return None;
    }
    let align = match &c.groups[ALIGN_GROUP] {
        Some(word) => Some(alignment_of(word.as_str())),
        None => None,
    };
    let image = ImageSpec {
        url: text_of_group(&c.groups, URL_GROUP),
        title: text_of_group(&c.groups, TITLE_GROUP),
        width,
        height,
        align,
    };
    Some(Specifier { image, len: c.end })
}

/// Parses the specifier at the start of `text`.
///
/// The text is searched for [`SPECIFIER_PATTERN`]; the result is the specifier
/// that the search result stands for, `None` where the text does not begin
/// with a specifier that gives a width or a height.
pub fn parse_specifier(text: &str) -> (specifier: Option<Specifier>)
    ensures
        specifier_view(specifier) == specifier_of(text@),
{
    specifier_from_captures(find_captures(SPECIFIER_PATTERN, text))
}

} // verus!
