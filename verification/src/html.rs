//! The HTML emitter: the markup that takes the place of a sized image
//! reference.
//!
//! The image is an `<img>` element inside a paragraph. An attribute is written
//! only where its value is not empty, and values are written as they stand,
//! without escaping.

use std::borrow::Cow;
use vstd::prelude::*;
use vstd::string::*;
use crate::specifier::{Align, ImageSpec, ImageSpecView};

verus! {

/// An attribute with its value, with a space in front; nothing where the
/// value is empty.
pub open spec fn attr_html(name: Seq<char>, value: Seq<char>) -> Seq<char> {
    if value.len() == 0 {
        Seq::empty()
    } else {
        " "@ + name + "=\""@ + value + "\""@
    }
}

/// The style attribute of the paragraph: one for an image in the center or on
/// the right, none for any other placement.
pub open spec fn style_html(align: Option<Align>) -> Seq<char> {
    match align {
        Some(Align::Center) => " style=\"text-align:center\""@,
        Some(Align::Right) => " style=\"text-align:right\""@,
        _ => Seq::empty(),
    }
}

/// The markup of an image: the paragraph with its style, and in it the
/// element with its source, then alt text, title, width and height, each
/// where it is given.
pub open spec fn image_html(image: ImageSpecView, alt: Seq<char>) -> Seq<char> {
    "<p"@ + style_html(image.align) + "><img src=\""@ + image.url + "\""@ + attr_html("alt"@, alt)
        + attr_html("title"@, image.title) + attr_html("width"@, image.width) + attr_html(
        "height"@,
        image.height,
    ) + "></p>"@
}

/// Writes one attribute of an element: a space, the name, and the value in
/// double quotes. An empty value gives no attribute at all.
pub fn get_attr<'a>(attr: &str, name: &str) -> (html: Cow<'a, str>)
    ensures
        html@ == attr_html(name@, attr@),
{
    if attr.is_empty() {
        proof {
            reveal_strlit("");
        }
        Cow::Borrowed("")
    } else {
        let mut html = String::from_str(" ");
        html.append(name);
        html.append("=\"");
        html.append(attr);
        html.append("\"");
        Cow::Owned(html)
    }
}

/// Appends the text of `piece` to `html`.
fn append_cow(html: &mut String, piece: &Cow<'_, str>)
    ensures
        final(html)@ == old(html)@ + piece@,
{
    match piece {
        Cow::Borrowed(text) => html.append(text),
        Cow::Owned(text) => html.append(text.as_str()),
    }
}

/// The style attribute for a placement.
fn style_of(align: Option<Align>) -> (html: &'static str)
    ensures
        html@ == style_html(align),
{
    proof {
        reveal_strlit("");
    }
    match align {
        Some(Align::Center) => " style=\"text-align:center\"",
        Some(Align::Right) => " style=\"text-align:right\"",
        _ => "",
    }
}

/// Writes the markup that takes the place of an image reference with the
/// fields `image` and the alt text `alt`.
pub fn render_image(image: &ImageSpec, alt: &str) -> (html: String)
    ensures
        html@ == image_html(image@, alt@),
{
    let mut html = String::from_str("<p");
    html.append(style_of(image.align));
    html.append("><img src=\"");
    html.append(image.url.as_str());
    html.append("\"");
    append_cow(&mut html, &get_attr(alt, "alt"));
    append_cow(&mut html, &get_attr(image.title.as_str(), "title"));
    append_cow(&mut html, &get_attr(image.width.as_str(), "width"));
    append_cow(&mut html, &get_attr(image.height.as_str(), "height"));
    html.append("></p>");
    html
}

/// With a width and no height, the element has its source, its alt text and
/// title where they are given, and the width: no height attribute is written.
pub proof fn lemma_width_only(image: ImageSpecView, alt: Seq<char>)
    requires
        image.width.len() > 0,
        image.height.len() == 0,
    ensures
        image_html(image, alt) == "<p"@ + style_html(image.align) + "><img src=\""@ + image.url
            + "\""@ + attr_html("alt"@, alt) + attr_html("title"@, image.title) + " width=\""@
            + image.width + "\""@ + "></p>"@,
{
    let head = "<p"@ + style_html(image.align) + "><img src=\""@ + image.url + "\""@ + attr_html(
        "alt"@,
        alt,
    ) + attr_html("title"@, image.title);
    assert(attr_html("height"@, image.height) =~= Seq::<char>::empty());
    assert(head + attr_html("width"@, image.width) + Seq::<char>::empty() =~= head + attr_html(
        "width"@,
        image.width,
    ));
    assert(head + (" "@ + "width"@ + "=\""@ + image.width + "\""@) =~= head + " width=\""@
        + image.width + "\""@) by {
        lemma_attr_opening("width"@, " width=\""@);
    }
}

/// With a height and no width, the element has its source, its alt text and
/// title where they are given, and the height: no width attribute is written.
pub proof fn lemma_height_only(image: ImageSpecView, alt: Seq<char>)
    requires
        image.width.len() == 0,
        image.height.len() > 0,
    ensures
        image_html(image, alt) == "<p"@ + style_html(image.align) + "><img src=\""@ + image.url
            + "\""@ + attr_html("alt"@, alt) + attr_html("title"@, image.title) + " height=\""@
            + image.height + "\""@ + "></p>"@,
{
    let head = "<p"@ + style_html(image.align) + "><img src=\""@ + image.url + "\""@ + attr_html(
        "alt"@,
        alt,
    ) + attr_html("title"@, image.title);
    assert(attr_html("width"@, image.width) =~= Seq::<char>::empty());
    assert(head + Seq::<char>::empty() =~= head);
    assert(head + (" "@ + "height"@ + "=\""@ + image.height + "\""@) =~= head + " height=\""@
        + image.height + "\""@) by {
        lemma_attr_opening("height"@, " height=\""@);
    }
}

/// The paragraph has a style for an image in the center or on the right, and
/// for no other placement.
pub proof fn lemma_style_for_center_and_right_only(align: Option<Align>)
    ensures
        style_html(align).len() > 0 <==> (align == Some(Align::Center) || align == Some(
            Align::Right,
        )),
{
    reveal_strlit(" style=\"text-align:center\"");
    reveal_strlit(" style=\"text-align:right\"");
}

/// The opening of an attribute is a space, its name, an equals sign and a
/// double quote.
proof fn lemma_attr_opening(name: Seq<char>, opening: Seq<char>)
    requires
        (name == "width"@ && opening == " width=\""@) || (name == "height"@ && opening
            == " height=\""@),
    ensures
        " "@ + name + "=\""@ == opening,
{
    reveal_strlit(" ");
    reveal_strlit("=\"");
    reveal_strlit("width");
    reveal_strlit("height");
    reveal_strlit(" width=\"");
    reveal_strlit(" height=\"");
    assert(" "@ + name + "=\""@ =~= opening);
}

} // verus!
