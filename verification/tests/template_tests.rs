use wiki_extractor::parser::model::Warning;
use wiki_extractor::parser::nodes::{Node, Parameter};
use wiki_extractor::parser::template_parser::{
    get_lang_template_text, get_temporary_link_template_text, parse_template,
    parse_template_type, TemplateType,
};

fn text(s: &str) -> Node {
    Node::Text { value: s.to_string() }
}

fn param(s: &str) -> Parameter {
    Parameter { value: vec![text(s)] }
}

#[test]
fn template_names_classify_by_fixed_table() {
    assert!(matches!(parse_template_type(&vec![text("lang")]), TemplateType::Lang));
    assert!(matches!(parse_template_type(&vec![text("lang-en")]), TemplateType::Lang));
    assert!(matches!(parse_template_type(&vec![text("Redirect")]), TemplateType::Redirect));
    assert!(matches!(parse_template_type(&vec![text("Otheruses")]), TemplateType::Otheruses));
    assert!(matches!(
        parse_template_type(&vec![text("仮リンク")]),
        TemplateType::TemporaryLink
    ));
    assert!(matches!(parse_template_type(&vec![text("unicode")]), TemplateType::Unicode));
    assert!(matches!(parse_template_type(&vec![text("IPA")]), TemplateType::Unicode));
}

#[test]
fn template_name_table_is_case_sensitive() {
    assert!(matches!(parse_template_type(&vec![text("Lang")]), TemplateType::Unknown));
    assert!(matches!(parse_template_type(&vec![text("redirect")]), TemplateType::Unknown));
    assert!(matches!(parse_template_type(&vec![text("infobox")]), TemplateType::Unknown));
}

#[test]
fn lang_template_with_two_params_takes_second() {
    let mut warnings: Vec<Warning> = vec![];
    let r = parse_template(&vec![text("lang")], &vec![param("en"), param("Hello")], &mut warnings);
    assert_eq!(r, Some("Hello".to_string()));
    assert_eq!(warnings.len(), 0);
}

#[test]
fn lang_template_with_one_param_takes_it() {
    let mut warnings: Vec<Warning> = vec![];
    let r = parse_template(&vec![text("lang")], &vec![param("Hi")], &mut warnings);
    assert_eq!(r, Some("Hi".to_string()));
    assert_eq!(warnings.len(), 0);
}

#[test]
fn lang_template_without_params_is_empty_with_warning() {
    let mut warnings: Vec<Warning> = vec![];
    let r = parse_template(&vec![text("lang")], &vec![], &mut warnings);
    assert_eq!(r, Some(String::new()));
    assert_eq!(warnings, vec![Warning::MissingTemplateParam]);
}

#[test]
fn lang_template_text_direct_calls() {
    let mut warnings: Vec<Warning> = vec![];
    assert_eq!(get_lang_template_text(&vec![param("a"), param("b")], &mut warnings), "b");
    assert_eq!(get_lang_template_text(&vec![param("only")], &mut warnings), "only");
    assert_eq!(warnings.len(), 0);
    assert_eq!(get_lang_template_text(&vec![], &mut warnings), "");
    assert_eq!(warnings.len(), 1);
}

#[test]
fn temporary_link_template_takes_first_param() {
    let mut warnings: Vec<Warning> = vec![];
    let r = parse_template(&vec![text("仮リンク")], &vec![param("Shown")], &mut warnings);
    assert_eq!(r, Some("Shown".to_string()));
    assert_eq!(warnings.len(), 0);
}

#[test]
fn temporary_link_template_without_params_warns() {
    let mut warnings: Vec<Warning> = vec![];
    assert_eq!(get_temporary_link_template_text(&vec![], &mut warnings), "");
    assert_eq!(warnings, vec![Warning::MissingTemplateParam]);
}

#[test]
fn unicode_template_takes_first_param() {
    let mut warnings: Vec<Warning> = vec![];
    let r = parse_template(&vec![text("IPA")], &vec![param("æ")], &mut warnings);
    assert_eq!(r, Some("æ".to_string()));
    assert_eq!(warnings.len(), 0);
}

#[test]
fn redirect_otheruses_and_unknown_templates_are_elided() {
    let mut warnings: Vec<Warning> = vec![];
    assert_eq!(parse_template(&vec![text("Redirect")], &vec![param("x")], &mut warnings), None);
    assert_eq!(parse_template(&vec![text("Otheruses")], &vec![], &mut warnings), None);
    assert_eq!(parse_template(&vec![text("mystery")], &vec![param("x")], &mut warnings), None);
    assert_eq!(warnings.len(), 0);
}
