//! Extraction of plain text, link text and image data from node sequences.

use crate::parser::model::{
    spec_image_type, Image, ImageType, ImageView, Link, LinkView, Text, TextView, Warning,
};
use crate::parser::nodes::{Node, Parameter};
use crate::parser::template_parser::{parse_template, spec_parse_template};
use crate::strutil::{find_char, lemma_find_props, spec_find};
use vstd::prelude::*;
use vstd::string::*;

verus! {

/// The literal text a single node contributes when only direct text runs
/// count.
pub open spec fn spec_text_one(n: Node) -> Seq<char> {
    match n {
        Node::Text { value } => value@,
        _ => Seq::empty(),
    }
}

/// The concatenation of the direct literal-text children of `nodes`.
pub open spec fn spec_text_only(nodes: Seq<Node>) -> Seq<char>
    decreases nodes.len(),
{
    if nodes.len() == 0 {
        Seq::empty()
    } else {
        spec_text_only(nodes.drop_last()) + spec_text_one(nodes.last())
    }
}

proof fn lemma_text_only_step(nodes: Seq<Node>, i: int)
    requires
        0 <= i < nodes.len(),
    ensures
        spec_text_only(nodes.take(i + 1)) == spec_text_only(nodes.take(i)) + spec_text_one(
            nodes[i],
        ),
{
    assert(nodes.take(i + 1).drop_last() =~= nodes.take(i));
    assert(nodes.take(i + 1).last() == nodes[i]);
}

/// Concatenates the direct literal-text children of `nodes`; every other
/// node kind contributes nothing.
pub fn parse_text_only(nodes: &Vec<Node>) -> (r: String)
    ensures
        r@ == spec_text_only(nodes@),
{
    let mut s = String::new();
    let mut i: usize = 0;
    while i < nodes.len()
        invariant
            i <= nodes@.len(),
            s@ == spec_text_only(nodes@.take(i as int)),
        decreases nodes@.len() - i,
    {
        proof {
            lemma_text_only_step(nodes@, i as int);
        }
        match &nodes[i] {
            Node::Text { value } => {
                s.append(value.as_str());
            },
            _ => {},
        }
        i = i + 1;
    }
    proof {
        assert(nodes@.take(nodes@.len() as int) =~= nodes@);
    }
    s
}

/// Extracts a heading's text: the concatenation of its direct literal-text
/// children; nested markup inside the heading is dropped.
pub fn extract_heading_text(nodes: &Vec<Node>) -> (r: String)
    ensures
        r@ == spec_text_only(nodes@),
{
    parse_text_only(nodes)
}

/// The display text a node contributes to a prose span: literal text, plus
/// the literal text of a link's label (one level of recursion only).
pub open spec fn spec_span_text_one(n: Node) -> Seq<char> {
    match n {
        Node::Text { value } => value@,
        Node::Link { target, text } => spec_text_only(text@),
        _ => Seq::empty(),
    }
}

/// The link target a node offers to a prose span.
pub open spec fn spec_span_link_one(n: Node) -> Seq<char> {
    match n {
        Node::Link { target, text } => target@,
        _ => Seq::empty(),
    }
}

pub open spec fn spec_span_text(nodes: Seq<Node>) -> Seq<char>
    decreases nodes.len(),
{
    if nodes.len() == 0 {
        Seq::empty()
    } else {
        spec_span_text(nodes.drop_last()) + spec_span_text_one(nodes.last())
    }
}

/// The one link target a prose span tracks: that of the first link node
/// whose target is non-empty, or empty when no node carries one.
pub open spec fn spec_span_link(nodes: Seq<Node>) -> Seq<char>
    decreases nodes.len(),
{
    if nodes.len() == 0 {
        Seq::empty()
    } else {
        let prev = spec_span_link(nodes.drop_last());
        if prev.len() > 0 {
            prev
        } else {
            spec_span_link_one(nodes.last())
        }
    }
}

/// The prose span that `nodes` denote: linked text when some link node
/// carries a target, plain text otherwise. Only one embedded link is
/// tracked — the first with a non-empty target.
pub open spec fn spec_parse_text(nodes: Seq<Node>) -> TextView {
    if spec_span_link(nodes).len() > 0 {
        TextView::LinkText {
            text: spec_span_text(nodes),
            link: LinkView::Link { link_target: spec_span_link(nodes) },
        }
    } else {
        TextView::Text { text: spec_span_text(nodes) }
    }
}

proof fn lemma_span_step(nodes: Seq<Node>, i: int)
    requires
        0 <= i < nodes.len(),
    ensures
        spec_span_text(nodes.take(i + 1)) == spec_span_text(nodes.take(i)) + spec_span_text_one(
            nodes[i],
        ),
        spec_span_link(nodes.take(i + 1)) == (if spec_span_link(nodes.take(i)).len() > 0 {
            spec_span_link(nodes.take(i))
        } else {
            spec_span_link_one(nodes[i])
        }),
{
    assert(nodes.take(i + 1).drop_last() =~= nodes.take(i));
    assert(nodes.take(i + 1).last() == nodes[i]);
}

/// Resolves a node sequence to a prose span, tracking the target of the
/// first embedded link that has one.
pub fn parse_text(nodes: &Vec<Node>) -> (r: Text)
    ensures
        r@ == spec_parse_text(nodes@),
{
    let mut s = String::new();
    let mut link_str = String::new();
    let mut i: usize = 0;
    while i < nodes.len()
        invariant
            i <= nodes@.len(),
            s@ == spec_span_text(nodes@.take(i as int)),
            link_str@ == spec_span_link(nodes@.take(i as int)),
        decreases nodes@.len() - i,
    {
        proof {
            lemma_span_step(nodes@, i as int);
        }
        match &nodes[i] {
            Node::Text { value } => {
                s.append(value.as_str());
            },
            Node::Link { target, text } => {
                if link_str.as_str().unicode_len() == 0 {
                    link_str = target.clone();
                }
                let label = parse_text_only(text);
                s.append(label.as_str());
            },
            _ => {},
        }
        i = i + 1;
    }
    proof {
        assert(nodes@.take(nodes@.len() as int) =~= nodes@);
    }
    if link_str.unicode_len() > 0 {
        Text::LinkText { text: s, link: Link::Link { link_target: link_str } }
    } else {
        Text::Text { text: s }
    }
}

/// Builds the linked text of an internal link node from its target and its
/// label nodes.
pub fn extract_link_text(target: &str, nodes: &Vec<Node>) -> (r: Text)
    ensures
        r@ == (TextView::LinkText {
            text: spec_text_only(nodes@),
            link: LinkView::Link { link_target: target@ },
        }),
{
    Text::LinkText {
        text: parse_text_only(nodes),
        link: Link::Link { link_target: target.to_owned() },
    }
}

/// The text and warnings a single node contributes when literal text and
/// template substitutions both count.
pub open spec fn spec_tmpl_text_one(n: Node) -> (Seq<char>, Seq<Warning>) {
    match n {
        Node::Text { value } => (value@, Seq::empty()),
        Node::Template { name, parameters } => (
            match spec_parse_template(name@, parameters@).0 {
                Some(s) => s,
                None => Seq::empty(),
            },
            if spec_parse_template(name@, parameters@).1 {
                seq![Warning::MissingTemplateParam]
            } else {
                Seq::empty()
            },
        ),
        _ => (Seq::empty(), Seq::empty()),
    }
}

/// The concatenation of literal text and template substitutions in `nodes`,
/// with the warnings resolving the templates noted.
pub open spec fn spec_text_with_templates(nodes: Seq<Node>) -> (Seq<char>, Seq<Warning>)
    decreases nodes.len(),
{
    if nodes.len() == 0 {
        (Seq::empty(), Seq::empty())
    } else {
        let prev = spec_text_with_templates(nodes.drop_last());
        let one = spec_tmpl_text_one(nodes.last());
        (prev.0 + one.0, prev.1 + one.1)
    }
}

proof fn lemma_tmpl_text_step(nodes: Seq<Node>, i: int)
    requires
        0 <= i < nodes.len(),
    ensures
        spec_text_with_templates(nodes.take(i + 1)).0 == spec_text_with_templates(nodes.take(i)).0
            + spec_tmpl_text_one(nodes[i]).0,
        spec_text_with_templates(nodes.take(i + 1)).1 == spec_text_with_templates(nodes.take(i)).1
            + spec_tmpl_text_one(nodes[i]).1,
{
    assert(nodes.take(i + 1).drop_last() =~= nodes.take(i));
    assert(nodes.take(i + 1).last() == nodes[i]);
}

/// Concatenates literal text and resolved template substitutions, noting the
/// warnings that resolution raises.
pub fn extract_text_only_with_lang_template(nodes: &Vec<Node>, warnings: &mut Vec<Warning>) -> (r:
    String)
    ensures
        r@ == spec_text_with_templates(nodes@).0,
        final(warnings)@ == old(warnings)@ + spec_text_with_templates(nodes@).1,
{
    let mut s = String::new();
    let mut i: usize = 0;
    while i < nodes.len()
        invariant
            i <= nodes@.len(),
            s@ == spec_text_with_templates(nodes@.take(i as int)).0,
            warnings@ == old(warnings)@ + spec_text_with_templates(nodes@.take(i as int)).1,
        decreases nodes@.len() - i,
    {
        proof {
            lemma_tmpl_text_step(nodes@, i as int);
        }
        match &nodes[i] {
            Node::Text { value } => {
                s.append(value.as_str());
            },
            Node::Template { name, parameters } => {
                let ghost pre = warnings@;
                match parse_template(name, parameters, warnings) {
                    Some(template) => {
                        s.append(template.as_str());
                    },
                    None => {},
                }
                proof {
                    if spec_parse_template(name@, parameters@).1 {
                        assert(warnings@ =~= pre + seq![Warning::MissingTemplateParam]);
                    } else {
                        assert(warnings@ =~= pre + Seq::<Warning>::empty());
                    }
                    assert(warnings@ =~= old(warnings)@ + spec_text_with_templates(
                        nodes@.take(i + 1),
                    ).1);
                }
            },
            _ => {},
        }
        proof {
            assert(warnings@ =~= old(warnings)@ + spec_text_with_templates(nodes@.take(i + 1)).1);
        }
        i = i + 1;
    }
    proof {
        assert(nodes@.take(nodes@.len() as int) =~= nodes@);
    }
    s
}

/// The text and warnings of an external link's label: template substitutions
/// count only when the label has more than one node.
pub open spec fn spec_external_link_parts(nodes: Seq<Node>) -> (Seq<char>, Seq<Warning>) {
    if nodes.len() > 1 {
        spec_text_with_templates(nodes)
    } else {
        (spec_text_only(nodes), Seq::empty())
    }
}

/// The linked text of an external link: a single token is both URL and
/// display text; otherwise the first token is the URL and the rest, after
/// the first space, is the display text.
pub open spec fn spec_external_link_text(nodes: Seq<Node>) -> TextView {
    let t = spec_external_link_parts(nodes).0;
    match spec_find(t, ' ') {
        None => TextView::LinkText { text: t, link: LinkView::ExternalLink { link_target: t } },
        Some(i) => TextView::LinkText {
            text: t.subrange(i + 1, t.len() as int),
            link: LinkView::ExternalLink { link_target: t.subrange(0, i) },
        },
    }
}

/// Builds the linked text of an external link node from its label nodes.
pub fn extract_external_link_text(nodes: &Vec<Node>, warnings: &mut Vec<Warning>) -> (r: Text)
    ensures
        r@ == spec_external_link_text(nodes@),
        final(warnings)@ == old(warnings)@ + spec_external_link_parts(nodes@).1,
{
    let text = if nodes.len() > 1 {
        extract_text_only_with_lang_template(nodes, warnings)
    } else {
        proof {
            assert(warnings@ =~= warnings@ + Seq::<Warning>::empty());
        }
        parse_text_only(nodes)
    };
    let len = text.as_str().unicode_len();
    match find_char(text.as_str(), ' ') {
        None => {
            let url = text.clone();
            Text::LinkText { text, link: Link::ExternalLink { link_target: url } }
        },
        Some(i) => {
            proof {
                lemma_find_props(text@, ' ');
            }
            let url = text.as_str().substring_char(0, i).to_owned();
            let display = text.as_str().substring_char(i + 1, len).to_owned();
            Text::LinkText { text: display, link: Link::ExternalLink { link_target: url } }
        },
    }
}

/// The image an image node denotes: its raw target must split on the first
/// namespace separator into a known namespace prefix and a file name.
pub open spec fn spec_extract_image(target: Seq<char>, text: Seq<Node>) -> Option<ImageView> {
    match spec_find(target, ':') {
        None => None,
        Some(i) => {
            let prefix = target.subrange(0, i);
            let rest = target.subrange(i + 1, target.len() as int);
            match spec_image_type(prefix) {
                None => None,
                Some(ty) => Some(
                    ImageView { target: rest, target_type: ty, text: spec_parse_text(text) },
                ),
            }
        },
    }
}

/// Parses an image node's target and caption; a target that does not name a
/// known image namespace yields `None`, a per-node fault the caller records.
pub fn extract_image(target: &str, text: &Vec<Node>) -> (r: Option<Image>)
    ensures
        match spec_extract_image(target@, text@) {
            Some(v) => r matches Some(img) && img@ == v,
            None => r is None,
        },
{
    let len = target.unicode_len();
    match find_char(target, ':') {
        None => None,
        Some(i) => {
            proof {
                lemma_find_props(target@, ':');
            }
            let prefix = target.substring_char(0, i);
            match ImageType::from_str(prefix) {
                Err(_) => None,
                Ok(ty) => {
                    let rest = target.substring_char(i + 1, len).to_owned();
                    Some(Image { target: rest, target_type: ty, text: parse_text(text) })
                },
            }
        },
    }
}

} // verus!
