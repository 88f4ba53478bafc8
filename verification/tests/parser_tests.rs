use wiki_extractor::parser::common_parser::{
    extract_external_link_text, extract_heading_text, extract_image, extract_link_text,
    extract_text_only_with_lang_template, parse_text, parse_text_only,
};
use wiki_extractor::parser::model::{ImageType, Link, Text, Warning};
use wiki_extractor::parser::nodes::{Node, Parameter};

fn text(s: &str) -> Node {
    Node::Text { value: s.to_string() }
}

#[test]
fn heading_text_concatenates_literal_children() {
    let nodes = vec![text("His"), Node::Bold, text("tory")];
    assert_eq!(extract_heading_text(&nodes), "History");
}

#[test]
fn heading_text_of_empty_sequence_is_empty() {
    let nodes: Vec<Node> = vec![];
    assert_eq!(extract_heading_text(&nodes), "");
}

#[test]
fn parse_text_only_drops_markup_nodes() {
    let nodes = vec![text("a"), Node::Comment, Node::Italic, text("b")];
    assert_eq!(parse_text_only(&nodes), "ab");
}

#[test]
fn parse_text_without_link_is_plain() {
    let nodes = vec![text("plain run")];
    match parse_text(&nodes) {
        Text::Text { text } => assert_eq!(text, "plain run"),
        Text::LinkText { .. } => panic!("expected plain text"),
    }
}

#[test]
fn parse_text_with_link_carries_target_and_label() {
    let nodes = vec![
        text("see "),
        Node::Link { target: "Tokyo".to_string(), text: vec![text("the capital")] },
    ];
    match parse_text(&nodes) {
        Text::LinkText { text, link } => {
            assert_eq!(text, "see the capital");
            match link {
                Link::Link { link_target } => assert_eq!(link_target, "Tokyo"),
                Link::ExternalLink { .. } => panic!("expected internal link"),
            }
        },
        Text::Text { .. } => panic!("expected linked text"),
    }
}

#[test]
fn parse_text_tracks_only_the_first_link_target() {
    let nodes = vec![
        Node::Link { target: "A".to_string(), text: vec![text("one")] },
        text(" and "),
        Node::Link { target: "B".to_string(), text: vec![text("two")] },
    ];
    match parse_text(&nodes) {
        Text::LinkText { text, link } => {
            assert_eq!(text, "one and two");
            match link {
                Link::Link { link_target } => assert_eq!(link_target, "A"),
                Link::ExternalLink { .. } => panic!("expected internal link"),
            }
        },
        Text::Text { .. } => panic!("expected linked text"),
    }
}

#[test]
fn parse_text_skips_links_with_empty_targets() {
    let nodes = vec![
        Node::Link { target: String::new(), text: vec![text("bare")] },
        Node::Link { target: "B".to_string(), text: vec![text(" label")] },
    ];
    match parse_text(&nodes) {
        Text::LinkText { text, link } => {
            assert_eq!(text, "bare label");
            match link {
                Link::Link { link_target } => assert_eq!(link_target, "B"),
                Link::ExternalLink { .. } => panic!("expected internal link"),
            }
        },
        Text::Text { .. } => panic!("expected linked text"),
    }
}

#[test]
fn image_caption_with_two_links_tracks_the_first() {
    let caption = vec![
        Node::Link { target: "A".to_string(), text: vec![text("x")] },
        Node::Link { target: "B".to_string(), text: vec![text("y")] },
    ];
    let img = extract_image("File:Two.png", &caption).expect("known namespace");
    match img.text {
        Text::LinkText { text, link } => {
            assert_eq!(text, "xy");
            match link {
                Link::Link { link_target } => assert_eq!(link_target, "A"),
                Link::ExternalLink { .. } => panic!("expected internal link"),
            }
        },
        Text::Text { .. } => panic!("expected linked caption"),
    }
}

#[test]
fn extract_link_text_pairs_label_and_target() {
    let nodes = vec![text("shown")];
    match extract_link_text("Target page", &nodes) {
        Text::LinkText { text, link } => {
            assert_eq!(text, "shown");
            match link {
                Link::Link { link_target } => assert_eq!(link_target, "Target page"),
                Link::ExternalLink { .. } => panic!("expected internal link"),
            }
        },
        Text::Text { .. } => panic!("expected linked text"),
    }
}

#[test]
fn external_link_single_token_is_url_and_text() {
    let mut warnings: Vec<Warning> = vec![];
    let nodes = vec![text("http://example.com")];
    match extract_external_link_text(&nodes, &mut warnings) {
        Text::LinkText { text, link } => {
            assert_eq!(text, "http://example.com");
            match link {
                Link::ExternalLink { link_target } => {
                    assert_eq!(link_target, "http://example.com")
                },
                Link::Link { .. } => panic!("expected external link"),
            }
        },
        Text::Text { .. } => panic!("expected linked text"),
    }
    assert_eq!(warnings.len(), 0);
}

#[test]
fn external_link_splits_url_from_display_text() {
    let mut warnings: Vec<Warning> = vec![];
    let nodes = vec![text("http://example.com Example site")];
    match extract_external_link_text(&nodes, &mut warnings) {
        Text::LinkText { text, link } => {
            assert_eq!(text, "Example site");
            match link {
                Link::ExternalLink { link_target } => {
                    assert_eq!(link_target, "http://example.com")
                },
                Link::Link { .. } => panic!("expected external link"),
            }
        },
        Text::Text { .. } => panic!("expected linked text"),
    }
    assert_eq!(warnings.len(), 0);
}

#[test]
fn text_with_templates_inlines_substitution() {
    let mut warnings: Vec<Warning> = vec![];
    let nodes = vec![
        text("before "),
        Node::Template {
            name: vec![text("lang")],
            parameters: vec![
                Parameter { value: vec![text("en")] },
                Parameter { value: vec![text("after")] },
            ],
        },
    ];
    assert_eq!(extract_text_only_with_lang_template(&nodes, &mut warnings), "before after");
    assert_eq!(warnings.len(), 0);
}

#[test]
fn image_with_file_prefix_resolves() {
    let img = extract_image("File:Example.png", &vec![]).expect("known namespace");
    assert_eq!(img.target, "Example.png");
    assert!(matches!(img.target_type, ImageType::File));
    match img.text {
        Text::Text { text } => assert_eq!(text, ""),
        Text::LinkText { .. } => panic!("empty caption must be plain text"),
    }
}

#[test]
fn image_prefix_is_case_insensitive() {
    let img = extract_image("image:Photo.jpg", &vec![]).expect("known namespace");
    assert_eq!(img.target, "Photo.jpg");
    assert!(matches!(img.target_type, ImageType::Image));
}

#[test]
fn image_localized_prefix_resolves() {
    let img = extract_image("ファイル:写真.png", &vec![]).expect("localized synonym");
    assert_eq!(img.target, "写真.png");
    assert!(matches!(img.target_type, ImageType::File));
}

#[test]
fn image_with_unknown_prefix_is_refused() {
    assert!(extract_image("Bogus:Example.png", &vec![]).is_none());
}

#[test]
fn image_without_separator_is_refused() {
    assert!(extract_image("Example.png", &vec![]).is_none());
}

#[test]
fn image_caption_with_link_tracks_one_target() {
    let caption = vec![
        text("a city"),
        Node::Link { target: "City".to_string(), text: vec![text(" view")] },
    ];
    let img = extract_image("File:City.png", &caption).expect("known namespace");
    match img.text {
        Text::LinkText { text, link } => {
            assert_eq!(text, "a city view");
            match link {
                Link::Link { link_target } => assert_eq!(link_target, "City"),
                Link::ExternalLink { .. } => panic!("expected internal link"),
            }
        },
        Text::Text { .. } => panic!("expected linked caption"),
    }
}

#[test]
fn image_type_from_str_rejects_unknown() {
    assert!(ImageType::from_str("media").is_err());
    assert!(ImageType::from_str("").is_err());
    assert!(ImageType::from_str("FILE").is_ok());
    assert!(ImageType::from_str("画像").is_ok());
}

#[test]
fn clone_text_returns_inner_text_of_both_variants() {
    let plain = Text::Text { text: "p".to_string() };
    assert_eq!(plain.clone_text(), "p");
    let linked = Text::LinkText {
        text: "q".to_string(),
        link: Link::Link { link_target: "t".to_string() },
    };
    assert_eq!(linked.clone_text(), "q");
}
