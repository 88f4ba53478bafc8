//! Classification of template invocations and their substitution text.

use crate::parser::common_parser::{parse_text_only, spec_text_only};
use crate::parser::model::Warning;
use crate::parser::nodes::{Node, Parameter};
use crate::strutil::str_eq;
use vstd::prelude::*;

verus! {

/// The fixed set of template kinds this extractor resolves; every other name
/// classifies as `Unknown` and is elided.
#[derive(Clone, Copy, PartialEq, Eq, Structural, Debug)]
pub enum TemplateType {
    Unknown,
    Lang,
    Redirect,
    Otheruses,
    TemporaryLink,
    Unicode,
}

/// The kind a template name classifies as, by a fixed, case-sensitive table.
pub open spec fn spec_template_type(name: Seq<char>) -> TemplateType {
    if name == "lang"@ || name == "lang-en"@ {
        TemplateType::Lang
    } else if name == "Redirect"@ {
        TemplateType::Redirect
    } else if name == "Otheruses"@ {
        TemplateType::Otheruses
    } else if name == "仮リンク"@ {
        TemplateType::TemporaryLink
    } else if name == "unicode"@ || name == "IPA"@ {
        TemplateType::Unicode
    } else {
        TemplateType::Unknown
    }
}

/// Classifies a template by the literal text of its name-node sequence.
pub fn parse_template_type(nodes: &Vec<Node>) -> (r: TemplateType)
    ensures
        r == spec_template_type(spec_text_only(nodes@)),
{
    let name = parse_text_only(nodes);
    let n = name.as_str();
    if str_eq(n, "lang") || str_eq(n, "lang-en") {
        TemplateType::Lang
    } else if str_eq(n, "Redirect") {
        TemplateType::Redirect
    } else if str_eq(n, "Otheruses") {
        TemplateType::Otheruses
    } else if str_eq(n, "仮リンク") {
        TemplateType::TemporaryLink
    } else if str_eq(n, "unicode") || str_eq(n, "IPA") {
        TemplateType::Unicode
    } else {
        TemplateType::Unknown
    }
}

/// The substitution of a language template: the second positional parameter
/// when two or more exist, the only one when exactly one exists, else empty
/// with a warning.
pub open spec fn spec_lang_text(params: Seq<Parameter>) -> (Seq<char>, bool) {
    if params.len() >= 2 {
        (spec_text_only(params[1].value@), false)
    } else if params.len() == 1 {
        (spec_text_only(params[0].value@), false)
    } else {
        (Seq::empty(), true)
    }
}

pub fn get_lang_template_text(nodes: &Vec<Parameter>, warnings: &mut Vec<Warning>) -> (r: String)
    ensures
        r@ == spec_lang_text(nodes@).0,
        final(warnings)@ == if spec_lang_text(nodes@).1 {
            old(warnings)@.push(Warning::MissingTemplateParam)
        } else {
            old(warnings)@
        },
{
    if nodes.len() >= 2 {
        parse_text_only(&nodes[1].value)
    } else if nodes.len() == 1 {
        parse_text_only(&nodes[0].value)
    } else {
        warnings.push(Warning::MissingTemplateParam);
        String::new()
    }
}

/// The substitution of a temporary-link or unicode template: the first
/// positional parameter if present, else empty with a warning.
pub open spec fn spec_first_param_text(params: Seq<Parameter>) -> (Seq<char>, bool) {
    if params.len() > 0 {
        (spec_text_only(params[0].value@), false)
    } else {
        (Seq::empty(), true)
    }
}

pub fn get_temporary_link_template_text(nodes: &Vec<Parameter>, warnings: &mut Vec<Warning>) -> (r:
    String)
    ensures
        r@ == spec_first_param_text(nodes@).0,
        final(warnings)@ == if spec_first_param_text(nodes@).1 {
            old(warnings)@.push(Warning::MissingTemplateParam)
        } else {
            old(warnings)@
        },
{
    if nodes.len() > 0 {
        parse_text_only(&nodes[0].value)
    } else {
        warnings.push(Warning::MissingTemplateParam);
        String::new()
    }
}

/// The substitution a template resolves to, if any, and whether resolving it
/// noted a missing-parameter warning.
pub open spec fn spec_parse_template(name: Seq<Node>, params: Seq<Parameter>) -> (
    Option<Seq<char>>,
    bool,
) {
    match spec_template_type(spec_text_only(name)) {
        TemplateType::Lang => (Some(spec_lang_text(params).0), spec_lang_text(params).1),
        TemplateType::TemporaryLink => (
            Some(spec_first_param_text(params).0),
            spec_first_param_text(params).1,
        ),
        TemplateType::Unicode => (
            Some(spec_first_param_text(params).0),
            spec_first_param_text(params).1,
        ),
        TemplateType::Otheruses => (None, false),
        TemplateType::Redirect => (None, false),
        TemplateType::Unknown => (None, false),
    }
}

/// Resolves a template to its substitution text, or elides it.
pub fn parse_template(name: &Vec<Node>, parameters: &Vec<Parameter>, warnings: &mut Vec<
    Warning,
>) -> (r: Option<String>)
    ensures
        r is Some <==> spec_parse_template(name@, parameters@).0 is Some,
        r matches Some(s) ==> spec_parse_template(name@, parameters@).0 == Some(s@),
        final(warnings)@ == if spec_parse_template(name@, parameters@).1 {
            old(warnings)@.push(Warning::MissingTemplateParam)
        } else {
            old(warnings)@
        },
{
    match parse_template_type(name) {
        TemplateType::Lang => Some(get_lang_template_text(parameters, warnings)),
        TemplateType::TemporaryLink => Some(
            get_temporary_link_template_text(parameters, warnings),
        ),
        TemplateType::Unicode => Some(get_temporary_link_template_text(parameters, warnings)),
        TemplateType::Otheruses => None,
        TemplateType::Redirect => None,
        TemplateType::Unknown => None,
    }
}

} // verus!
