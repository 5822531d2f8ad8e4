use mdbook_image_size::fragment::{collect_fragments, scan_fragments, Fragment};

fn fragment(text: &str, start: usize, end: usize) -> Fragment {
    Fragment { text: text.to_string(), start, end }
}

#[test]
fn collect_fragments_keeps_the_order() {
    let events = vec![
        None,
        Some(fragment("a", 0, 1)),
        None,
        None,
        Some(fragment("b", 3, 4)),
        Some(fragment("c", 4, 5)),
        None,
    ];
    assert_eq!(
        collect_fragments(&events),
        vec![fragment("a", 0, 1), fragment("b", 3, 4), fragment("c", 4, 5)]
    );
}

#[test]
fn collect_fragments_of_no_text() {
    assert_eq!(collect_fragments(&Vec::new()), Vec::new());
    assert_eq!(collect_fragments(&vec![None, None]), Vec::new());
}

#[test]
fn scan_fragments_of_a_sized_reference() {
    assert_eq!(
        scan_fragments("foo ![cap](a.png =100x50 right) bar"),
        vec![
            fragment("foo ", 0, 4),
            fragment("![", 4, 6),
            fragment("cap", 6, 9),
            fragment("]", 9, 10),
            fragment("(a.png =100x50 right) bar", 10, 35),
        ]
    );
}

#[test]
fn scan_fragments_of_an_image() {
    assert_eq!(scan_fragments("![alt](img.png)"), vec![fragment("alt", 2, 5)]);
}

#[test]
fn scan_fragments_counts_bytes() {
    assert_eq!(
        scan_fragments("h\u{e9}llo ![\u{e4}]"),
        vec![
            fragment("h\u{e9}llo ", 0, 7),
            fragment("![", 7, 9),
            fragment("\u{e4}", 9, 11),
            fragment("]", 11, 12),
        ]
    );
}

#[test]
fn scan_fragments_passes_over_markup() {
    assert_eq!(scan_fragments(""), Vec::new());
    assert_eq!(scan_fragments("<p><img src=\"a.png\" width=\"1\"></p>"), Vec::new());
    assert_eq!(scan_fragments("`![x](u =1x1)`"), Vec::new());
    assert_eq!(
        scan_fragments("# Title\n\n*text*"),
        vec![fragment("Title", 2, 7), fragment("text", 10, 14)]
    );
}
