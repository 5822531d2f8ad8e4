use mdbook_image_size::fragment::{scan_fragments, Fragment};
use mdbook_image_size::markdown::{preprocess, rewrite_fragments};

#[test]
fn preprocess_width_height() {
    let content = "# Chapter 1\n// \nfoo ![](images/2023-11-25-11-46-17.png =800x400) bar";
    let result = preprocess(content);
    assert_eq!(result, "# Chapter 1\n// \nfoo <p><img src=\"images/2023-11-25-11-46-17.png\" width=\"800\" height=\"400\"></p> bar");
}

#[test]
fn preprocess_width() {
    let content = "# Chapter 1\n// \nfoo ![](images/2023-11-25-11-46-17.png =800x) bar";
    let result = preprocess(content);
    assert_eq!(
        result,
        "# Chapter 1\n// \nfoo <p><img src=\"images/2023-11-25-11-46-17.png\" width=\"800\"></p> bar"
    );
}

#[test]
fn preprocess_height() {
    let content = "# Chapter 1\n// \nfoo ![](images/2023-11-25-11-46-17.png =x400) bar";
    let result = preprocess(content);
    assert_eq!(
        result,
        "# Chapter 1\n// \nfoo <p><img src=\"images/2023-11-25-11-46-17.png\" height=\"400\"></p> bar"
    );
}

#[test]
fn preprocess_width_height_left() {
    let content = "# Chapter 1\n// \nfoo ![](images/2023-11-25-11-46-17.png =800x400 left) bar";
    let result = preprocess(content);
    assert_eq!(result, "# Chapter 1\n// \nfoo <p><img src=\"images/2023-11-25-11-46-17.png\" width=\"800\" height=\"400\"></p> bar");
}

#[test]
fn preprocess_width_height_center() {
    let content = "# Chapter 1\n// \nfoo ![](images/2023-11-25-11-46-17.png =800x400 center) bar";
    let result = preprocess(content);
    assert_eq!(result, "# Chapter 1\n// \nfoo <p style=\"text-align:center\"><img src=\"images/2023-11-25-11-46-17.png\" width=\"800\" height=\"400\"></p> bar");
}

#[test]
fn preprocess_width_height_right() {
    let content = "# Chapter 1\n// \nfoo ![](images/2023-11-25-11-46-17.png =800x400 right) bar";
    let result = preprocess(content);
    assert_eq!(result, "# Chapter 1\n// \nfoo <p style=\"text-align:right\"><img src=\"images/2023-11-25-11-46-17.png\" width=\"800\" height=\"400\"></p> bar");
}

#[test]
fn preprocess_caption_and_right_alignment() {
    assert_eq!(
        preprocess("foo ![cap](a.png =100x50 right) bar"),
        "foo <p style=\"text-align:right\"><img src=\"a.png\" alt=\"cap\" width=\"100\" height=\"50\"></p> bar"
    );
}

#[test]
fn preprocess_two_references_on_one_line() {
    assert_eq!(
        preprocess("a ![x](u =1x2) b ![y](v =3x4 center) c"),
        "a <p><img src=\"u\" alt=\"x\" width=\"1\" height=\"2\"></p> b <p style=\"text-align:center\"><img src=\"v\" alt=\"y\" width=\"3\" height=\"4\"></p> c"
    );
}

#[test]
fn preprocess_references_in_two_paragraphs() {
    assert_eq!(
        preprocess("![alt](img.png =800x400)\n\n![alt2](img2.png =x5)"),
        "<p><img src=\"img.png\" alt=\"alt\" width=\"800\" height=\"400\"></p>\n\n<p><img src=\"img2.png\" alt=\"alt2\" height=\"5\"></p>"
    );
}

// An image inside the alt text of a sized reference: the tokenizer reads the
// inner image as an image, so its alt text is the only text between the
// markers, and the outer reference is rewritten as a whole.
#[test]
fn preprocess_image_nested_in_alt_text() {
    assert_eq!(
        preprocess("![![x](y)](z =10x10)"),
        "<p><img src=\"z\" alt=\"x\" width=\"10\" height=\"10\"></p>"
    );
}

// A sized reference inside the alt text of another: only the inner one is a
// complete run of fragments.
#[test]
fn preprocess_sized_reference_nested_in_alt_text() {
    assert_eq!(
        preprocess("![outer ![in](i.png =1x1) more](z =10x10)"),
        "![outer <p><img src=\"i.png\" alt=\"in\" width=\"1\" height=\"1\"></p> more](z =10x10)"
    );
}

#[test]
fn preprocess_second_opener_begins_anew() {
    assert_eq!(
        preprocess("![![b](u =1x1)"),
        "![<p><img src=\"u\" alt=\"b\" width=\"1\" height=\"1\"></p>"
    );
}

#[test]
fn preprocess_opener_where_the_specifier_should_be() {
    assert_eq!(preprocess("![a]![b](u =1x1)"), "![a]![b](u =1x1)");
}

#[test]
fn preprocess_specifier_not_at_the_start_of_its_fragment() {
    assert_eq!(preprocess("![a] see (u =1x1)"), "![a] see (u =1x1)");
}

#[test]
fn preprocess_title() {
    assert_eq!(
        preprocess("![a](b.png \"My title\" =10x20)"),
        "<p><img src=\"b.png\" alt=\"a\" title=\"My title\" width=\"10\" height=\"20\"></p>"
    );
}

#[test]
fn preprocess_size_right_behind_the_title() {
    assert_eq!(
        preprocess("![a](b.png \"t\"=1x2)"),
        "<p><img src=\"b.png\" alt=\"a\" title=\"t\" width=\"1\" height=\"2\"></p>"
    );
}

#[test]
fn preprocess_keeps_the_last_fragment_as_alt_text() {
    assert_eq!(
        preprocess("![a *b* c](u =1x1)"),
        "<p><img src=\"u\" alt=\" c\" width=\"1\" height=\"1\"></p>"
    );
}

#[test]
fn preprocess_text_of_more_than_one_byte_per_character() {
    assert_eq!(
        preprocess("h\u{e9}llo ![\u{e4}](\u{fc}.png =1x2) w\u{f6}rld"),
        "h\u{e9}llo <p><img src=\"\u{fc}.png\" alt=\"\u{e4}\" width=\"1\" height=\"2\"></p> w\u{f6}rld"
    );
}

#[test]
fn preprocess_alignment_in_any_case() {
    let centered = "<p style=\"text-align:center\"><img src=\"img.png\" alt=\"alt\" width=\"800\" height=\"400\"></p>";
    assert_eq!(preprocess("![alt](img.png =800x400 CENTER)"), centered);
    assert_eq!(preprocess("![alt](img.png =800x400  center )"), centered);
    assert_eq!(preprocess("![alt](img.png =800x400 Center)"), centered);
}

#[test]
fn preprocess_alignment_without_style() {
    let plain = "<p><img src=\"img.png\" alt=\"alt\" width=\"800\" height=\"400\"></p>";
    assert_eq!(preprocess("![alt](img.png =800x400 left)"), plain);
    assert_eq!(preprocess("![alt](img.png =800x400 top)"), plain);
    assert_eq!(preprocess("![alt](img.png =800x400)"), plain);
}

#[test]
fn preprocess_image_without_size_is_unchanged() {
    assert_eq!(preprocess("![alt](img.png)"), "![alt](img.png)");
    assert_eq!(preprocess("![alt](img.png =x)"), "![alt](img.png =x)");
    assert_eq!(preprocess("![alt](img.png \"title\")"), "![alt](img.png \"title\")");
}

#[test]
fn preprocess_document_without_reference_is_unchanged() {
    let content = "# Title\n\nSome *text* with a [link](http://example.com), `code`\nand an ![image](a.png).\n\n- one\n- two\n\n```\n![in code](x =1x1)\n```\n";
    assert_eq!(preprocess(content), content);
}

#[test]
fn preprocess_empty_and_partial_documents() {
    assert_eq!(preprocess(""), "");
    assert_eq!(preprocess("!["), "![");
    assert_eq!(preprocess("![abc"), "![abc");
    assert_eq!(preprocess("]"), "]");
    assert_eq!(preprocess("![]"), "![]");
    assert_eq!(preprocess("![a]("), "![a](");
    assert_eq!(preprocess("[[[[![[[ ]] ]("), "[[[[![[[ ]] ](");
}

#[test]
fn preprocess_twice_changes_nothing_more() {
    let inputs = [
        "foo ![cap](a.png =100x50 right) bar",
        "a ![x](u =1x2) b ![y](v =3x4 center) c",
        "![a](b.png \"My title\" =10x20)",
        "![![x](y)](z =10x10)",
        "no image here",
    ];
    for input in inputs {
        let once = preprocess(input);
        assert_eq!(preprocess(&once), once);
    }
}

#[test]
fn preprocess_is_deterministic() {
    let content = "a ![x](u =1x2) b ![y](v =3x4 center) c";
    assert_eq!(preprocess(content), preprocess(content));
}

#[test]
fn rewrite_fragments_follows_the_fragments_given() {
    let content = "ab![x](u =1x1)cd";
    let fragments = vec![
        Fragment { text: "![".to_string(), start: 2, end: 4 },
        Fragment { text: "x".to_string(), start: 4, end: 5 },
        Fragment { text: "]".to_string(), start: 5, end: 6 },
        Fragment { text: "(u =1x1)cd".to_string(), start: 6, end: 16 },
    ];
    assert_eq!(
        rewrite_fragments(content, &fragments),
        "ab<p><img src=\"u\" alt=\"x\" width=\"1\" height=\"1\"></p>cd"
    );
    assert_eq!(rewrite_fragments(content, &Vec::new()), content);
}

#[test]
fn rewrite_fragments_agrees_with_preprocess() {
    let content = "foo ![cap](a.png =100x50 right) bar";
    assert_eq!(rewrite_fragments(content, &scan_fragments(content)), preprocess(content));
}

#[test]
fn rewrite_fragments_drops_a_run_that_does_not_fit_the_document() {
    let content = "h\u{e9} ![x](u =1x1)";
    // The run begins inside the two bytes of a character.
    let inside = vec![
        Fragment { text: "![".to_string(), start: 2, end: 4 },
        Fragment { text: "]".to_string(), start: 6, end: 7 },
        Fragment { text: "(u =1x1)".to_string(), start: 8, end: 16 },
    ];
    assert_eq!(rewrite_fragments(content, &inside), content);
    // The specifier ends behind the end of the document.
    let behind = vec![
        Fragment { text: "![".to_string(), start: 4, end: 6 },
        Fragment { text: "]".to_string(), start: 7, end: 8 },
        Fragment { text: "(u =1x1)".to_string(), start: 9, end: 17 },
    ];
    assert_eq!(rewrite_fragments(content, &behind), content);
    // The offset of the specifier is too large to add its length to.
    let huge = vec![
        Fragment { text: "![".to_string(), start: 4, end: 6 },
        Fragment { text: "]".to_string(), start: 7, end: 8 },
        Fragment { text: "(u =1x1)".to_string(), start: usize::MAX, end: usize::MAX },
    ];
    assert_eq!(rewrite_fragments(content, &huge), content);
}
