use wiki_extractor::page_stream::Page;
use wiki_extractor::parser::document_builder::{build_document, strip_category};
use wiki_extractor::parser::model::{Link, Text, Warning};
use wiki_extractor::parser::nodes::{ListItem, Node, Parameter};

fn text(s: &str) -> Node {
    Node::Text { value: s.to_string() }
}

fn page(id: &str, title: &str) -> Page {
    Page {
        id: id.to_string(),
        title: title.to_string(),
        raw_content: String::new(),
        revision_id: "9".to_string(),
        timestamp: "2020-01-01T00:00:00Z".to_string(),
        meta: false,
    }
}

#[test]
fn identifying_fields_and_url_come_from_the_page() {
    let (doc, _) = build_document(&page("42", "Tokyo"), &vec![]);
    assert_eq!(doc.id, "42");
    assert_eq!(doc.title, "Tokyo");
    assert_eq!(doc.revision_id, "9");
    assert_eq!(doc.timestamp, "2020-01-01T00:00:00Z");
    assert_eq!(doc.url, "https://ja.wikipedia.org/wiki?curid=42");
}

#[test]
fn category_prefix_and_trailing_space_are_stripped() {
    let (doc, _) = build_document(
        &page("1", "C"),
        &vec![Node::Category { target: "Category:Foo ".to_string() }],
    );
    assert_eq!(doc.categories, vec!["Foo".to_string()]);
}

#[test]
fn category_leading_space_is_stripped() {
    let (doc, _) = build_document(
        &page("1", "C"),
        &vec![Node::Category { target: " Category:Bar".to_string() }],
    );
    assert_eq!(doc.categories, vec!["Bar".to_string()]);
}

#[test]
fn strip_category_handles_prefix_and_whitespace() {
    assert_eq!(strip_category("Category:Foo "), "Foo");
    assert_eq!(strip_category(" Category:Bar"), "Bar");
    assert_eq!(strip_category("Category: Foo "), "Foo");
    assert_eq!(strip_category("Plain"), "Plain");
}

#[test]
fn categories_never_reach_contents() {
    let (doc, _) = build_document(
        &page("1", "C"),
        &vec![Node::Category { target: "Category:Foo".to_string() }, text("body")],
    );
    assert_eq!(doc.contents, vec!["body".to_string()]);
    assert_eq!(doc.categories, vec!["Foo".to_string()]);
}

#[test]
fn contents_align_with_headings_plus_trailing_segment() {
    let nodes = vec![
        text("intro"),
        Node::Heading { nodes: vec![text("A")] },
        text("body"),
        Node::Heading { nodes: vec![text("B")] },
    ];
    let (doc, _) = build_document(&page("1", "T"), &nodes);
    assert_eq!(doc.headings, vec!["A".to_string(), "B".to_string()]);
    assert_eq!(
        doc.contents,
        vec!["intro".to_string(), "A\nbody".to_string(), "B\n".to_string()]
    );
    assert_eq!(doc.contents.len(), doc.headings.len() + 1);
}

#[test]
fn heading_flush_happens_even_for_empty_leading_segment() {
    let nodes = vec![Node::Heading { nodes: vec![text("A")] }];
    let (doc, _) = build_document(&page("1", "T"), &nodes);
    assert_eq!(doc.headings, vec!["A".to_string()]);
    assert_eq!(doc.contents, vec!["".to_string(), "A\n".to_string()]);
}

#[test]
fn page_without_headings_still_emits_its_segment() {
    let (doc, _) = build_document(&page("1", "T"), &vec![text("only text")]);
    assert_eq!(doc.headings.len(), 0);
    assert_eq!(doc.contents, vec!["only text".to_string()]);
}

#[test]
fn empty_page_emits_no_segment() {
    let (doc, _) = build_document(&page("1", "T"), &vec![]);
    assert_eq!(doc.contents.len(), 0);
    assert_eq!(doc.headings.len(), 0);
}

#[test]
fn lone_newline_text_runs_are_dropped() {
    let (doc, _) = build_document(&page("1", "T"), &vec![text("a"), text("\n"), text("b")]);
    assert_eq!(doc.contents, vec!["ab".to_string()]);
}

#[test]
fn paragraph_break_appends_line_break() {
    let (doc, _) = build_document(&page("1", "T"), &vec![text("a"), Node::ParagraphBreak,
        text("b")]);
    assert_eq!(doc.contents, vec!["a\nb".to_string()]);
}

#[test]
fn character_entity_appends_resolved_character() {
    let (doc, _) = build_document(
        &page("1", "T"),
        &vec![text("AT"), Node::CharacterEntity { character: '&' }, text("T")],
    );
    assert_eq!(doc.contents, vec!["AT&T".to_string()]);
}

#[test]
fn bogus_image_is_skipped_with_one_warning_page_complete() {
    let nodes = vec![
        Node::Image { target: "Bogus:Example.png".to_string(), text: vec![] },
        text("hello"),
    ];
    let (doc, warnings) = build_document(&page("1", "T"), &nodes);
    assert_eq!(doc.images.len(), 0);
    assert_eq!(warnings, vec![Warning::BadImageTarget]);
    assert_eq!(doc.contents, vec!["hello".to_string()]);
}

#[test]
fn good_image_lands_in_images_not_contents() {
    let nodes = vec![
        Node::Image { target: "File:Example.png".to_string(), text: vec![text("caption")] },
        text("body"),
    ];
    let (doc, warnings) = build_document(&page("1", "T"), &nodes);
    assert_eq!(doc.images.len(), 1);
    assert_eq!(doc.images[0].target, "Example.png");
    assert_eq!(warnings.len(), 0);
    assert_eq!(doc.contents, vec!["body".to_string()]);
}

#[test]
fn redirect_sets_target_and_nothing_else() {
    let nodes = vec![Node::Redirect { target: "Other page".to_string() }];
    let (doc, warnings) = build_document(&page("1", "T"), &nodes);
    assert_eq!(doc.redirect_to, Some("Other page".to_string()));
    assert_eq!(doc.headings.len(), 0);
    assert_eq!(doc.contents.len(), 0);
    assert_eq!(warnings.len(), 0);
}

#[test]
fn redirect_in_mid_page_changes_nothing_else() {
    let with = vec![
        text("a"),
        Node::Redirect { target: "Other".to_string() },
        Node::Heading { nodes: vec![text("H")] },
        text("b"),
    ];
    let without = vec![text("a"), Node::Heading { nodes: vec![text("H")] }, text("b")];
    let (doc_with, warn_with) = build_document(&page("1", "T"), &with);
    let (doc_without, warn_without) = build_document(&page("1", "T"), &without);
    assert_eq!(doc_with.redirect_to, Some("Other".to_string()));
    assert_eq!(doc_without.redirect_to, None);
    assert_eq!(doc_with.contents, doc_without.contents);
    assert_eq!(doc_with.headings, doc_without.headings);
    assert_eq!(warn_with.len(), warn_without.len());
}

#[test]
fn bogus_image_in_mid_page_skipped_in_place() {
    let with = vec![
        text("a"),
        Node::Image { target: "Bogus:X.png".to_string(), text: vec![] },
        Node::Heading { nodes: vec![text("H")] },
        text("b"),
    ];
    let without = vec![text("a"), Node::Heading { nodes: vec![text("H")] }, text("b")];
    let (doc_with, warn_with) = build_document(&page("1", "T"), &with);
    let (doc_without, warn_without) = build_document(&page("1", "T"), &without);
    assert_eq!(doc_with.images.len(), 0);
    assert_eq!(warn_with, vec![Warning::BadImageTarget]);
    assert_eq!(warn_without.len(), 0);
    assert_eq!(doc_with.contents, doc_without.contents);
    assert_eq!(doc_with.headings, doc_without.headings);
}

#[test]
fn links_append_display_text_to_segment_and_links() {
    let nodes = vec![
        text("see "),
        Node::Link { target: "Tokyo".to_string(), text: vec![text("the capital")] },
    ];
    let (doc, _) = build_document(&page("1", "T"), &nodes);
    assert_eq!(doc.contents, vec!["see the capital".to_string()]);
    assert_eq!(doc.links.len(), 1);
    match &doc.links[0] {
        Text::LinkText { text, link } => {
            assert_eq!(text, "the capital");
            assert!(matches!(link, Link::Link { .. }));
        },
        Text::Text { .. } => panic!("expected linked text"),
    }
}

#[test]
fn external_links_append_display_text_and_record_url() {
    let nodes = vec![Node::ExternalLink { nodes: vec![text("http://example.com Example")] }];
    let (doc, _) = build_document(&page("1", "T"), &nodes);
    assert_eq!(doc.contents, vec!["Example".to_string()]);
    assert_eq!(doc.links.len(), 1);
    match &doc.links[0] {
        Text::LinkText { text, link } => {
            assert_eq!(text, "Example");
            match link {
                Link::ExternalLink { link_target } => {
                    assert_eq!(link_target, "http://example.com")
                },
                Link::Link { .. } => panic!("expected external link"),
            }
        },
        Text::Text { .. } => panic!("expected linked text"),
    }
}

#[test]
fn template_substitution_reaches_segment_and_missing_param_warns() {
    let nodes = vec![
        Node::Template {
            name: vec![text("lang")],
            parameters: vec![
                Parameter { value: vec![text("en")] },
                Parameter { value: vec![text("Hello")] },
            ],
        },
        Node::Template { name: vec![text("lang")], parameters: vec![] },
    ];
    let (doc, warnings) = build_document(&page("1", "T"), &nodes);
    assert_eq!(doc.contents, vec!["Hello".to_string()]);
    assert_eq!(warnings, vec![Warning::MissingTemplateParam]);
}

#[test]
fn elided_and_unknown_nodes_leave_no_trace() {
    let nodes = vec![
        Node::Bold,
        Node::Italic,
        Node::BoldItalic,
        Node::Comment,
        Node::StartTag,
        Node::EndTag,
        Node::Other,
        Node::Template { name: vec![text("Otheruses")], parameters: vec![] },
    ];
    let (doc, warnings) = build_document(&page("1", "T"), &nodes);
    assert_eq!(doc.contents.len(), 0);
    assert_eq!(warnings.len(), 0);
}

#[test]
fn unordered_list_lines_join_the_open_segment() {
    let nodes = vec![
        text("before"),
        Node::UnorderedList {
            items: vec![
                ListItem { nodes: vec![text("a")] },
                ListItem { nodes: vec![text("b")] },
            ],
        },
    ];
    let (doc, _) = build_document(&page("1", "T"), &nodes);
    assert_eq!(doc.contents, vec!["before\n  * a\n  * b".to_string()]);
}
