use wiki_extractor::parser::document_builder::build_document;
use wiki_extractor::page_stream::Page;
use wiki_extractor::parser::list_parser::{
    indent_items, parse_definition_items, parse_items, parse_order_items,
};
use wiki_extractor::parser::model::{Document, Link, Text, Warning};
use wiki_extractor::parser::nodes::{
    DefinitionListItem, DefinitionListItemType, ListItem, Node, Parameter,
};

fn text(s: &str) -> Node {
    Node::Text { value: s.to_string() }
}

fn item(ss: &[&str]) -> ListItem {
    ListItem { nodes: ss.iter().map(|s| text(s)).collect() }
}

fn empty_doc() -> Document {
    Document {
        id: String::new(),
        title: String::new(),
        timestamp: String::new(),
        revision_id: String::new(),
        url: String::new(),
        contents: vec![],
        categories: vec![],
        headings: vec![],
        images: vec![],
        links: vec![],
        redirect_to: None,
    }
}

#[test]
fn unordered_items_start_with_star() {
    let mut doc = empty_doc();
    let mut warnings: Vec<Warning> = vec![];
    let lines = parse_items(&vec![item(&["a"]), item(&["b"])], &mut doc, 1, &mut warnings);
    assert_eq!(lines, vec!["* a".to_string(), "* b".to_string()]);
    assert_eq!(warnings.len(), 0);
}

#[test]
fn ordered_items_number_from_one() {
    let mut doc = empty_doc();
    let mut warnings: Vec<Warning> = vec![];
    let lines = parse_order_items(&vec![item(&["a"]), item(&["b"])], &mut doc, 1, &mut warnings);
    assert_eq!(lines, vec!["1. a".to_string(), "2. b".to_string()]);
}

#[test]
fn ordered_counter_resets_per_list() {
    let mut doc = empty_doc();
    let mut warnings: Vec<Warning> = vec![];
    let first = parse_order_items(&vec![item(&["a"])], &mut doc, 1, &mut warnings);
    let second = parse_order_items(&vec![item(&["b"])], &mut doc, 1, &mut warnings);
    assert_eq!(first, vec!["1. a".to_string()]);
    assert_eq!(second, vec!["1. b".to_string()]);
}

#[test]
fn nested_unordered_under_ordered_indents_four_spaces() {
    let mut doc = empty_doc();
    let mut warnings: Vec<Warning> = vec![];
    let nested = ListItem {
        nodes: vec![
            text("a"),
            Node::UnorderedList { items: vec![item(&["x"])] },
        ],
    };
    let lines = parse_order_items(&vec![nested, item(&["b"])], &mut doc, 1, &mut warnings);
    assert_eq!(lines, vec!["1. a\n    * x".to_string(), "2. b".to_string()]);
}

#[test]
fn nesting_indent_grows_two_spaces_per_depth() {
    for depth in 1u8..5u8 {
        let mut doc = empty_doc();
        let mut warnings: Vec<Warning> = vec![];
        let nested = ListItem {
            nodes: vec![
                text("outer"),
                Node::UnorderedList { items: vec![item(&["inner"])] },
            ],
        };
        let lines = parse_items(&vec![nested], &mut doc, depth, &mut warnings);
        let mut expected = String::from("* outer\n  ");
        for _ in 0..depth {
            expected.push_str("  ");
        }
        expected.push_str("* inner");
        assert_eq!(lines, vec![expected]);
    }
}

#[test]
fn deeply_mixed_nesting_indents_by_depth_not_kind() {
    let mut doc = empty_doc();
    let mut warnings: Vec<Warning> = vec![];
    let inner2 = Node::OrderedList { items: vec![item(&["deep"])] };
    let inner1 = Node::UnorderedList {
        items: vec![ListItem { nodes: vec![text("mid"), inner2] }],
    };
    let lines = parse_items(
        &vec![ListItem { nodes: vec![text("top"), inner1] }],
        &mut doc,
        1,
        &mut warnings,
    );
    assert_eq!(lines, vec!["* top\n    * mid\n      1. deep".to_string()]);
}

#[test]
fn ordered_indexes_reach_two_digits() {
    let mut doc = empty_doc();
    let mut warnings: Vec<Warning> = vec![];
    let items: Vec<ListItem> = (0..12).map(|_| item(&["x"])).collect();
    let lines = parse_order_items(&items, &mut doc, 1, &mut warnings);
    assert_eq!(lines[8], "9. x");
    assert_eq!(lines[9], "10. x");
    assert_eq!(lines[11], "12. x");
}

#[test]
fn definition_terms_bare_and_details_indented() {
    let mut doc = empty_doc();
    let mut warnings: Vec<Warning> = vec![];
    let items = vec![
        DefinitionListItem { type_: DefinitionListItemType::Term, nodes: vec![text("word")] },
        DefinitionListItem {
            type_: DefinitionListItemType::Details,
            nodes: vec![text("meaning")],
        },
    ];
    let lines = parse_definition_items(&items, &mut doc, 1, &mut warnings);
    assert_eq!(lines, vec!["word".to_string(), "  meaning".to_string()]);
}

#[test]
fn list_item_links_accumulate_on_document() {
    let mut doc = empty_doc();
    let mut warnings: Vec<Warning> = vec![];
    let items = vec![ListItem {
        nodes: vec![Node::Link { target: "Page".to_string(), text: vec![text("label")] }],
    }];
    let lines = parse_items(&items, &mut doc, 1, &mut warnings);
    assert_eq!(lines, vec!["* label".to_string()]);
    assert_eq!(doc.links.len(), 1);
    match &doc.links[0] {
        Text::LinkText { text, link } => {
            assert_eq!(text, "label");
            match link {
                Link::Link { link_target } => assert_eq!(link_target, "Page"),
                Link::ExternalLink { .. } => panic!("expected internal link"),
            }
        },
        Text::Text { .. } => panic!("expected linked text"),
    }
}

#[test]
fn ordered_items_keep_external_links() {
    let mut doc = empty_doc();
    let mut warnings: Vec<Warning> = vec![];
    let items = vec![ListItem {
        nodes: vec![
            text("a "),
            Node::ExternalLink { nodes: vec![text("http://x site")] },
        ],
    }];
    let lines = parse_order_items(&items, &mut doc, 1, &mut warnings);
    assert_eq!(lines, vec!["1. a site".to_string()]);
    assert_eq!(doc.links.len(), 1);
    match &doc.links[0] {
        Text::LinkText { text, link } => {
            assert_eq!(text, "site");
            match link {
                Link::ExternalLink { link_target } => assert_eq!(link_target, "http://x"),
                Link::Link { .. } => panic!("expected external link"),
            }
        },
        Text::Text { .. } => panic!("expected linked text"),
    }
}

#[test]
fn unordered_items_keep_external_links() {
    let mut doc = empty_doc();
    let mut warnings: Vec<Warning> = vec![];
    let items = vec![ListItem {
        nodes: vec![
            text("a "),
            Node::ExternalLink { nodes: vec![text("http://x site")] },
        ],
    }];
    let lines = parse_items(&items, &mut doc, 1, &mut warnings);
    assert_eq!(lines, vec!["* a site".to_string()]);
    assert_eq!(doc.links.len(), 1);
}

#[test]
fn list_item_templates_inline_their_substitution() {
    let mut doc = empty_doc();
    let mut warnings: Vec<Warning> = vec![];
    let items = vec![ListItem {
        nodes: vec![
            text("say "),
            Node::Template {
                name: vec![text("lang")],
                parameters: vec![
                    Parameter { value: vec![text("en")] },
                    Parameter { value: vec![text("hello")] },
                ],
            },
        ],
    }];
    let lines = parse_items(&items, &mut doc, 1, &mut warnings);
    assert_eq!(lines, vec!["* say hello".to_string()]);
    assert_eq!(warnings.len(), 0);
}

#[test]
fn indent_items_appends_each_line_padded() {
    let mut s = String::from("head");
    indent_items(2, &mut s, vec!["x".to_string(), "y".to_string()]);
    assert_eq!(s, "head\n      x\n      y");
}

#[test]
fn character_entities_append_in_items() {
    let mut doc = empty_doc();
    let mut warnings: Vec<Warning> = vec![];
    let items = vec![ListItem {
        nodes: vec![text("AT"), Node::CharacterEntity { character: '&' }, text("T")],
    }];
    let lines = parse_items(&items, &mut doc, 1, &mut warnings);
    assert_eq!(lines, vec!["* AT&T".to_string()]);
}

#[test]
fn lists_render_into_page_content_with_continuation_indent() {
    let page = Page {
        id: "1".to_string(),
        title: "L".to_string(),
        raw_content: String::new(),
        revision_id: "2".to_string(),
        timestamp: "t".to_string(),
        meta: false,
    };
    let nodes = vec![Node::OrderedList { items: vec![item(&["a"]), item(&["b"])] }];
    let (doc, warnings) = build_document(&page, &nodes);
    assert_eq!(doc.contents, vec!["\n  1. a\n  2. b".to_string()]);
    assert_eq!(warnings.len(), 0);
}
