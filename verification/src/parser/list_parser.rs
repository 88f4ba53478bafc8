//! Recursive rendering of ordered, unordered and definition lists into
//! indented line strings, extracting embedded links and template
//! substitutions as a side effect.

use crate::parser::common_parser::{
    extract_external_link_text, extract_link_text, parse_text_only, spec_external_link_parts,
    spec_external_link_text, spec_text_only, spec_tmpl_text_one,
};
use crate::parser::model::{Document, DocumentView, LinkView, TextView, Warning};
use crate::parser::nodes::{DefinitionListItem, DefinitionListItemType, ListItem, Node};
use crate::parser::template_parser::parse_template;
use crate::strutil::{push_char, push_decimal, spec_decimal};
use vstd::prelude::*;
use vstd::string::*;

verus! {

/// What rendering one list item's content contributes: its text, the links
/// it extracts and the warnings it notes.
#[verifier::ext_equal]
pub struct ItemOut {
    pub text: Seq<char>,
    pub links: Seq<TextView>,
    pub warnings: Seq<Warning>,
}

/// What rendering a whole list contributes: one line per item, plus the
/// extracted links and the noted warnings.
#[verifier::ext_equal]
pub struct ItemsOut {
    pub lines: Seq<Seq<char>>,
    pub links: Seq<TextView>,
    pub warnings: Seq<Warning>,
}

pub open spec fn item_out_empty() -> ItemOut {
    ItemOut { text: Seq::empty(), links: Seq::empty(), warnings: Seq::empty() }
}

pub open spec fn item_out_combine(a: ItemOut, b: ItemOut) -> ItemOut {
    ItemOut { text: a.text + b.text, links: a.links + b.links, warnings: a.warnings + b.warnings }
}

/// The nesting depth passed to a nested list; it saturates at the type's
/// limit instead of overflowing.
pub open spec fn spec_next_indent(indent: u8) -> u8 {
    if indent < 255 {
        (indent + 1) as u8
    } else {
        indent
    }
}

pub fn bump_indent(indent: u8) -> (r: u8)
    ensures
        r == spec_next_indent(indent),
{
    if indent < u8::MAX {
        indent + 1
    } else {
        indent
    }
}

/// `2 * n` spaces.
pub open spec fn spec_spaces(n: nat) -> Seq<char>
    decreases n,
{
    if n == 0 {
        Seq::empty()
    } else {
        spec_spaces((n - 1) as nat) + "  "@
    }
}

/// The line break and padding that precede a nested line at a given depth:
/// a two-space continuation indent plus two spaces per depth level.
pub open spec fn spec_newline_indent(indent: nat) -> Seq<char> {
    "\n  "@ + spec_spaces(indent)
}

/// The rendered lines of a nested list, each appended on its own padded
/// line.
pub open spec fn spec_indent_items(indent: nat, inner: Seq<Seq<char>>) -> Seq<char>
    decreases inner.len(),
{
    if inner.len() == 0 {
        Seq::empty()
    } else {
        spec_indent_items(indent, inner.drop_last()) + spec_newline_indent(indent) + inner.last()
    }
}

proof fn lemma_indent_items_step(indent: nat, inner: Seq<Seq<char>>, k: int)
    requires
        0 <= k < inner.len(),
    ensures
        spec_indent_items(indent, inner.take(k + 1)) == spec_indent_items(indent, inner.take(k))
            + spec_newline_indent(indent) + inner[k],
{
    assert(inner.take(k + 1).drop_last() =~= inner.take(k));
    assert(inner.take(k + 1).last() == inner[k]);
}

/// Appends each nested line to the parent item's text, padded for depth
/// `indent`.
pub fn indent_items(indent: u8, parsed_item: &mut String, inner_items: Vec<String>)
    ensures
        final(parsed_item)@ == old(parsed_item)@ + spec_indent_items(
            indent as nat,
            inner_items@.map_values(|s: String| s@),
        ),
{
    let ghost lines = inner_items@.map_values(|s: String| s@);
    let mut k: usize = 0;
    while k < inner_items.len()
        invariant
            k <= inner_items@.len(),
            lines == inner_items@.map_values(|s: String| s@),
            parsed_item@ == old(parsed_item)@ + spec_indent_items(indent as nat, lines.take(
                k as int,
            )),
        decreases inner_items@.len() - k,
    {
        proof {
            lemma_indent_items_step(indent as nat, lines, k as int);
        }
        parsed_item.append("\n  ");
        let mut c: u8 = 0;
        while c < indent
            invariant
                c <= indent,
                parsed_item@ == old(parsed_item)@ + spec_indent_items(indent as nat, lines.take(
                    k as int,
                )) + "\n  "@ + spec_spaces(c as nat),
            decreases indent - c,
        {
            parsed_item.append("  ");
            c = c + 1;
        }
        parsed_item.append(inner_items[k].as_str());
        proof {
            assert(parsed_item@ =~= old(parsed_item)@ + spec_indent_items(indent as nat, lines.take(
                k + 1,
            )));
        }
        k = k + 1;
    }
    proof {
        assert(lines.take(lines.len() as int) =~= lines);
    }
}

/// What one node inside a list item contributes to the item's rendering.
pub open spec fn spec_item_node(n: Node, indent: u8) -> ItemOut
    decreases n,
{
    match n {
        Node::Text { value } => ItemOut {
            text: value@,
            links: Seq::empty(),
            warnings: Seq::empty(),
        },
        Node::CharacterEntity { character } => ItemOut {
            text: seq![character],
            links: Seq::empty(),
            warnings: Seq::empty(),
        },
        Node::Link { target, text } => ItemOut {
            text: spec_text_only(text@),
            links: seq![
                TextView::LinkText {
                    text: spec_text_only(text@),
                    link: LinkView::Link { link_target: target@ },
                },
            ],
            warnings: Seq::empty(),
        },
        Node::ExternalLink { nodes } => ItemOut {
            text: spec_external_link_text(nodes@).text_part(),
            links: seq![spec_external_link_text(nodes@)],
            warnings: spec_external_link_parts(nodes@).1,
        },
        Node::UnorderedList { items } => {
            let sub = spec_parse_items(items@, spec_next_indent(indent));
            ItemOut {
                text: spec_indent_items(indent as nat, sub.lines),
                links: sub.links,
                warnings: sub.warnings,
            }
        },
        Node::OrderedList { items } => {
            let sub = spec_parse_order_items(items@, spec_next_indent(indent));
            ItemOut {
                text: spec_indent_items(indent as nat, sub.lines),
                links: sub.links,
                warnings: sub.warnings,
            }
        },
        Node::DefinitionList { items } => {
            let sub = spec_parse_definition_items(items@, spec_next_indent(indent));
            ItemOut {
                text: spec_indent_items(indent as nat, sub.lines),
                links: sub.links,
                warnings: sub.warnings,
            }
        },
        Node::Template { name, parameters } => ItemOut {
            text: spec_tmpl_text_one(n).0,
            links: Seq::empty(),
            warnings: spec_tmpl_text_one(n).1,
        },
        _ => item_out_empty(),
    }
}

/// What the node sequence of one list item contributes, in order.
pub open spec fn spec_item_nodes(nodes: Seq<Node>, indent: u8) -> ItemOut
    decreases nodes,
{
    if nodes.len() == 0 {
        item_out_empty()
    } else {
        item_out_combine(
            spec_item_nodes(nodes.drop_last(), indent),
            spec_item_node(nodes.last(), indent),
        )
    }
}

/// The rendering of an unordered list: each item's line begins with `"* "`.
pub open spec fn spec_parse_items(items: Seq<ListItem>, indent: u8) -> ItemsOut
    decreases items,
{
    if items.len() == 0 {
        ItemsOut { lines: Seq::empty(), links: Seq::empty(), warnings: Seq::empty() }
    } else {
        let prev = spec_parse_items(items.drop_last(), indent);
        let one = spec_item_nodes(items.last().nodes@, indent);
        ItemsOut {
            lines: prev.lines.push("* "@ + one.text),
            links: prev.links + one.links,
            warnings: prev.warnings + one.warnings,
        }
    }
}

/// The rendering of an ordered list: each item's line begins with its
/// 1-based, per-list index, `"{n}. "`.
pub open spec fn spec_parse_order_items(items: Seq<ListItem>, indent: u8) -> ItemsOut
    decreases items,
{
    if items.len() == 0 {
        ItemsOut { lines: Seq::empty(), links: Seq::empty(), warnings: Seq::empty() }
    } else {
        let prev = spec_parse_order_items(items.drop_last(), indent);
        let one = spec_item_nodes(items.last().nodes@, indent);
        ItemsOut {
            lines: prev.lines.push(spec_decimal(items.len() as nat) + ". "@ + one.text),
            links: prev.links + one.links,
            warnings: prev.warnings + one.warnings,
        }
    }
}

/// The prefix of a definition-list line: a term line has none, a details
/// line is indented by two literal spaces.
pub open spec fn spec_definition_prefix(t: DefinitionListItemType) -> Seq<char> {
    match t {
        DefinitionListItemType::Details => "  "@,
        DefinitionListItemType::Term => Seq::empty(),
    }
}

/// The rendering of a definition list.
pub open spec fn spec_parse_definition_items(items: Seq<DefinitionListItem>, indent: u8) -> ItemsOut
    decreases items,
{
    if items.len() == 0 {
        ItemsOut { lines: Seq::empty(), links: Seq::empty(), warnings: Seq::empty() }
    } else {
        let prev = spec_parse_definition_items(items.drop_last(), indent);
        let one = spec_item_nodes(items.last().nodes@, indent);
        ItemsOut {
            lines: prev.lines.push(spec_definition_prefix(items.last().type_) + one.text),
            links: prev.links + one.links,
            warnings: prev.warnings + one.warnings,
        }
    }
}

proof fn lemma_item_nodes_step(nodes: Seq<Node>, indent: u8, j: int)
    requires
        0 <= j < nodes.len(),
    ensures
        spec_item_nodes(nodes.take(j + 1), indent) == item_out_combine(
            spec_item_nodes(nodes.take(j), indent),
            spec_item_node(nodes[j], indent),
        ),
{
    assert(nodes.take(j + 1).drop_last() =~= nodes.take(j));
    assert(nodes.take(j + 1).last() == nodes[j]);
}

proof fn lemma_parse_items_step(items: Seq<ListItem>, indent: u8, i: int)
    requires
        0 <= i < items.len(),
    ensures
        spec_parse_items(items.take(i + 1), indent).lines == spec_parse_items(
            items.take(i),
            indent,
        ).lines.push("* "@ + spec_item_nodes(items[i].nodes@, indent).text),
        spec_parse_items(items.take(i + 1), indent).links == spec_parse_items(
            items.take(i),
            indent,
        ).links + spec_item_nodes(items[i].nodes@, indent).links,
        spec_parse_items(items.take(i + 1), indent).warnings == spec_parse_items(
            items.take(i),
            indent,
        ).warnings + spec_item_nodes(items[i].nodes@, indent).warnings,
{
    assert(items.take(i + 1).drop_last() =~= items.take(i));
    assert(items.take(i + 1).last() == items[i]);
}

proof fn lemma_parse_order_items_step(items: Seq<ListItem>, indent: u8, i: int)
    requires
        0 <= i < items.len(),
    ensures
        spec_parse_order_items(items.take(i + 1), indent).lines == spec_parse_order_items(
            items.take(i),
            indent,
        ).lines.push(
            spec_decimal((i + 1) as nat) + ". "@ + spec_item_nodes(
                items[i].nodes@,
                indent,
            ).text,
        ),
        spec_parse_order_items(items.take(i + 1), indent).links == spec_parse_order_items(
            items.take(i),
            indent,
        ).links + spec_item_nodes(items[i].nodes@, indent).links,
        spec_parse_order_items(items.take(i + 1), indent).warnings == spec_parse_order_items(
            items.take(i),
            indent,
        ).warnings + spec_item_nodes(items[i].nodes@, indent).warnings,
{
    assert(items.take(i + 1).drop_last() =~= items.take(i));
    assert(items.take(i + 1).last() == items[i]);
    assert(items.take(i + 1).len() == i + 1);
}

proof fn lemma_parse_definition_items_step(items: Seq<DefinitionListItem>, indent: u8, i: int)
    requires
        0 <= i < items.len(),
    ensures
        spec_parse_definition_items(items.take(i + 1), indent).lines
            == spec_parse_definition_items(items.take(i), indent).lines.push(
            spec_definition_prefix(items[i].type_) + spec_item_nodes(
                items[i].nodes@,
                indent,
            ).text,
        ),
        spec_parse_definition_items(items.take(i + 1), indent).links
            == spec_parse_definition_items(items.take(i), indent).links + spec_item_nodes(
            items[i].nodes@,
            indent,
        ).links,
        spec_parse_definition_items(items.take(i + 1), indent).warnings
            == spec_parse_definition_items(items.take(i), indent).warnings + spec_item_nodes(
            items[i].nodes@,
            indent,
        ).warnings,
{
    assert(items.take(i + 1).drop_last() =~= items.take(i));
    assert(items.take(i + 1).last() == items[i]);
}

/// Renders an unordered list's items, pushing extracted links into
/// `doc.links` and noting warnings; `indent` is the current nesting depth.
pub fn parse_items(
    items: &Vec<ListItem>,
    doc: &mut Document,
    indent: u8,
    warnings: &mut Vec<Warning>,
) -> (r: Vec<String>)
    ensures
        r@.map_values(|s: String| s@) == spec_parse_items(items@, indent).lines,
        final(doc)@ == (DocumentView {
            links: old(doc)@.links + spec_parse_items(items@, indent).links,
            ..old(doc)@
        }),
        final(warnings)@ == old(warnings)@ + spec_parse_items(items@, indent).warnings,
    decreases items@,
{
    let mut parsed_items: Vec<String> = Vec::new();
    let mut i: usize = 0;
    while i < items.len()
        invariant
            i <= items@.len(),
            parsed_items@.map_values(|s: String| s@) == spec_parse_items(
                items@.take(i as int),
                indent,
            ).lines,
            doc@ == (DocumentView {
                links: old(doc)@.links + spec_parse_items(items@.take(i as int), indent).links,
                ..old(doc)@
            }),
            warnings@ == old(warnings)@ + spec_parse_items(items@.take(i as int), indent).warnings,
        decreases items@.len() - i,
    {
        let item = &items[i];
        let mut parsed_item = String::from_str("* ");
        let ghost prefix = "* "@;
        let ghost doc_links0 = doc@.links;
        let ghost warnings0 = warnings@;
        let mut j: usize = 0;
        while j < item.nodes.len()
            invariant
                i < items@.len(),
                *item == items@[i as int],
                j <= item.nodes@.len(),
                parsed_item@ == prefix + spec_item_nodes(
                    item.nodes@.take(j as int),
                    indent,
                ).text,
                doc@ == (DocumentView {
                    links: doc_links0 + spec_item_nodes(
                        item.nodes@.take(j as int),
                        indent,
                    ).links,
                    ..old(doc)@
                }),
                warnings@ == warnings0 + spec_item_nodes(
                    item.nodes@.take(j as int),
                    indent,
                ).warnings,
            decreases item.nodes@.len() - j,
        {
            proof {
                lemma_item_nodes_step(item.nodes@, indent, j as int);
            }
            match &item.nodes[j] {
                Node::Text { value } => {
                    parsed_item.append(value.as_str());
                },
                Node::CharacterEntity { character } => {
                    push_char(&mut parsed_item, *character);
                },
                Node::Link { target, text } => {
                    let link_text = extract_link_text(target.as_str(), text);
                    let shown = link_text.clone_text();
                    parsed_item.append(shown.as_str());
                    doc.links.push(link_text);
                },
                Node::ExternalLink { nodes } => {
                    let link_text = extract_external_link_text(nodes, warnings);
                    let shown = link_text.clone_text();
                    parsed_item.append(shown.as_str());
                    doc.links.push(link_text);
                },
                Node::UnorderedList { items: inner } => {
                    proof {
                        assert(decreases_to!(items@ => items@[i as int]));
                        assert(decreases_to!(*item => item.nodes));
                        assert(decreases_to!(item.nodes@ => item.nodes@[j as int]));
                        assert(item.nodes@[j as int] == (Node::UnorderedList { items: *inner }));
                        assert(decreases_to!(item.nodes@[j as int] => *inner));
                        assert(decreases_to!(items@ => inner@));
                    }
                    let next = bump_indent(indent);
                    let inner_items = parse_items(inner, doc, next, warnings);
                    indent_items(indent, &mut parsed_item, inner_items);
                },
                Node::OrderedList { items: inner } => {
                    proof {
                        assert(decreases_to!(items@ => items@[i as int]));
                        assert(decreases_to!(*item => item.nodes));
                        assert(decreases_to!(item.nodes@ => item.nodes@[j as int]));
                        assert(item.nodes@[j as int] == (Node::OrderedList { items: *inner }));
                        assert(decreases_to!(item.nodes@[j as int] => *inner));
                        assert(decreases_to!(items@ => inner@));
                    }
                    let next = bump_indent(indent);
                    let inner_items = parse_order_items(inner, doc, next, warnings);
                    indent_items(indent, &mut parsed_item, inner_items);
                },
                Node::DefinitionList { items: inner } => {
                    proof {
                        assert(decreases_to!(items@ => items@[i as int]));
                        assert(decreases_to!(*item => item.nodes));
                        assert(decreases_to!(item.nodes@ => item.nodes@[j as int]));
                        assert(item.nodes@[j as int] == (Node::DefinitionList { items: *inner }));
                        assert(decreases_to!(item.nodes@[j as int] => *inner));
                        assert(decreases_to!(items@ => inner@));
                    }
                    let next = bump_indent(indent);
                    let inner_items = parse_definition_items(inner, doc, next, warnings);
                    indent_items(indent, &mut parsed_item, inner_items);
                },
                Node::Template { name, parameters } => {
                    match parse_template(name, parameters, warnings) {
                        Some(template) => {
                            parsed_item.append(template.as_str());
                        },
                        None => {},
                    }
                },
                _ => {},
            }
            proof {
                let one = spec_item_node(item.nodes@[j as int], indent);
                let pre = spec_item_nodes(item.nodes@.take(j as int), indent);
                assert(doc@.links =~= doc_links0 + pre.links + one.links);
                assert(doc_links0 + pre.links + one.links =~= doc_links0 + (pre.links
                    + one.links));
                assert(parsed_item@ =~= prefix + spec_item_nodes(
                    item.nodes@.take(j + 1),
                    indent,
                ).text);
                assert(doc@.links =~= doc_links0 + spec_item_nodes(
                    item.nodes@.take(j + 1),
                    indent,
                ).links);
                assert(warnings@ =~= warnings0 + spec_item_nodes(
                    item.nodes@.take(j + 1),
                    indent,
                ).warnings);
            }
            j = j + 1;
        }
        proof {
            assert(item.nodes@.take(item.nodes@.len() as int) =~= item.nodes@);
            lemma_parse_items_step(items@, indent, i as int);
        }
        parsed_items.push(parsed_item);
        proof {
            assert(parsed_items@.map_values(|s: String| s@) =~= spec_parse_items(
                items@.take(i + 1),
                indent,
            ).lines);
            assert(doc@.links =~= old(doc)@.links + spec_parse_items(
                items@.take(i + 1),
                indent,
            ).links);
            assert(warnings@ =~= old(warnings)@ + spec_parse_items(
                items@.take(i + 1),
                indent,
            ).warnings);
        }
        i = i + 1;
    }
    proof {
        assert(items@.take(items@.len() as int) =~= items@);
    }
    parsed_items
}

/// Renders an ordered list's items with 1-based sequential indexes; the
/// counter starts afresh for each ordered-list node.
pub fn parse_order_items(
    items: &Vec<ListItem>,
    doc: &mut Document,
    indent: u8,
    warnings: &mut Vec<Warning>,
) -> (r: Vec<String>)
    ensures
        r@.map_values(|s: String| s@) == spec_parse_order_items(items@, indent).lines,
        final(doc)@ == (DocumentView {
            links: old(doc)@.links + spec_parse_order_items(items@, indent).links,
            ..old(doc)@
        }),
        final(warnings)@ == old(warnings)@ + spec_parse_order_items(items@, indent).warnings,
    decreases items@,
{
    let mut parsed_items: Vec<String> = Vec::new();
    let mut i: usize = 0;
    while i < items.len()
        invariant
            i <= items@.len(),
            parsed_items@.map_values(|s: String| s@) == spec_parse_order_items(
                items@.take(i as int),
                indent,
            ).lines,
            doc@ == (DocumentView {
                links: old(doc)@.links + spec_parse_order_items(
                    items@.take(i as int),
                    indent,
                ).links,
                ..old(doc)@
            }),
            warnings@ == old(warnings)@ + spec_parse_order_items(
                items@.take(i as int),
                indent,
            ).warnings,
        decreases items@.len() - i,
    {
        let item = &items[i];
        let mut parsed_item = String::new();
        push_decimal(&mut parsed_item, i + 1);
        parsed_item.append(". ");
        let ghost prefix = spec_decimal((i + 1) as nat) + ". "@;
        let ghost doc_links0 = doc@.links;
        let ghost warnings0 = warnings@;
        let mut j: usize = 0;
        while j < item.nodes.len()
            invariant
                i < items@.len(),
                *item == items@[i as int],
                j <= item.nodes@.len(),
                parsed_item@ == prefix + spec_item_nodes(
                    item.nodes@.take(j as int),
                    indent,
                ).text,
                doc@ == (DocumentView {
                    links: doc_links0 + spec_item_nodes(
                        item.nodes@.take(j as int),
                        indent,
                    ).links,
                    ..old(doc)@
                }),
                warnings@ == warnings0 + spec_item_nodes(
                    item.nodes@.take(j as int),
                    indent,
                ).warnings,
            decreases item.nodes@.len() - j,
        {
            proof {
                lemma_item_nodes_step(item.nodes@, indent, j as int);
            }
            match &item.nodes[j] {
                Node::Text { value } => {
                    parsed_item.append(value.as_str());
                },
                Node::CharacterEntity { character } => {
                    push_char(&mut parsed_item, *character);
                },
                Node::Link { target, text } => {
                    let link_text = extract_link_text(target.as_str(), text);
                    let shown = link_text.clone_text();
                    parsed_item.append(shown.as_str());
                    doc.links.push(link_text);
                },
                Node::ExternalLink { nodes } => {
                    let link_text = extract_external_link_text(nodes, warnings);
                    let shown = link_text.clone_text();
                    parsed_item.append(shown.as_str());
                    doc.links.push(link_text);
                },
                Node::UnorderedList { items: inner } => {
                    proof {
                        assert(decreases_to!(items@ => items@[i as int]));
                        assert(decreases_to!(*item => item.nodes));
                        assert(decreases_to!(item.nodes@ => item.nodes@[j as int]));
                        assert(item.nodes@[j as int] == (Node::UnorderedList { items: *inner }));
                        assert(decreases_to!(item.nodes@[j as int] => *inner));
                        assert(decreases_to!(items@ => inner@));
                    }
                    let next = bump_indent(indent);
                    let inner_items = parse_items(inner, doc, next, warnings);
                    indent_items(indent, &mut parsed_item, inner_items);
                },
                Node::OrderedList { items: inner } => {
                    proof {
                        assert(decreases_to!(items@ => items@[i as int]));
                        assert(decreases_to!(*item => item.nodes));
                        assert(decreases_to!(item.nodes@ => item.nodes@[j as int]));
                        assert(item.nodes@[j as int] == (Node::OrderedList { items: *inner }));
                        assert(decreases_to!(item.nodes@[j as int] => *inner));
                        assert(decreases_to!(items@ => inner@));
                    }
                    let next = bump_indent(indent);
                    let inner_items = parse_order_items(inner, doc, next, warnings);
                    indent_items(indent, &mut parsed_item, inner_items);
                },
                Node::DefinitionList { items: inner } => {
                    proof {
                        assert(decreases_to!(items@ => items@[i as int]));
                        assert(decreases_to!(*item => item.nodes));
                        assert(decreases_to!(item.nodes@ => item.nodes@[j as int]));
                        assert(item.nodes@[j as int] == (Node::DefinitionList { items: *inner }));
                        assert(decreases_to!(item.nodes@[j as int] => *inner));
                        assert(decreases_to!(items@ => inner@));
                    }
                    let next = bump_indent(indent);
                    let inner_items = parse_definition_items(inner, doc, next, warnings);
                    indent_items(indent, &mut parsed_item, inner_items);
                },
                Node::Template { name, parameters } => {
                    match parse_template(name, parameters, warnings) {
                        Some(template) => {
                            parsed_item.append(template.as_str());
                        },
                        None => {},
                    }
                },
                _ => {},
            }
            proof {
                let one = spec_item_node(item.nodes@[j as int], indent);
                let pre = spec_item_nodes(item.nodes@.take(j as int), indent);
                assert(spec_item_nodes(item.nodes@.take(j + 1), indent).links == pre.links
                    + one.links);
                assert(doc@.links =~= doc_links0 + pre.links + one.links);
                assert(doc_links0 + pre.links + one.links =~= doc_links0 + (pre.links
                    + one.links));
                assert(parsed_item@ =~= prefix + spec_item_nodes(
                    item.nodes@.take(j + 1),
                    indent,
                ).text);
                assert(doc@.links =~= doc_links0 + spec_item_nodes(
                    item.nodes@.take(j + 1),
                    indent,
                ).links);
                assert(warnings@ =~= warnings0 + spec_item_nodes(
                    item.nodes@.take(j + 1),
                    indent,
                ).warnings);
            }
            j = j + 1;
        }
        proof {
            assert(item.nodes@.take(item.nodes@.len() as int) =~= item.nodes@);
            lemma_parse_order_items_step(items@, indent, i as int);
        }
        parsed_items.push(parsed_item);
        proof {
            assert(parsed_items@.map_values(|s: String| s@) =~= spec_parse_order_items(
                items@.take(i + 1),
                indent,
            ).lines);
            assert(doc@.links =~= old(doc)@.links + spec_parse_order_items(
                items@.take(i + 1),
                indent,
            ).links);
            assert(warnings@ =~= old(warnings)@ + spec_parse_order_items(
                items@.take(i + 1),
                indent,
            ).warnings);
        }
        i = i + 1;
    }
    proof {
        assert(items@.take(items@.len() as int) =~= items@);
    }
    parsed_items
}

/// Renders a definition list's items: term lines bare, details lines
/// prefixed with two spaces.
pub fn parse_definition_items(
    items: &Vec<DefinitionListItem>,
    doc: &mut Document,
    indent: u8,
    warnings: &mut Vec<Warning>,
) -> (r: Vec<String>)
    ensures
        r@.map_values(|s: String| s@) == spec_parse_definition_items(items@, indent).lines,
        final(doc)@ == (DocumentView {
            links: old(doc)@.links + spec_parse_definition_items(items@, indent).links,
            ..old(doc)@
        }),
        final(warnings)@ == old(warnings)@ + spec_parse_definition_items(items@, indent).warnings,
    decreases items@,
{
    let mut parsed_items: Vec<String> = Vec::new();
    let mut i: usize = 0;
    while i < items.len()
        invariant
            i <= items@.len(),
            parsed_items@.map_values(|s: String| s@) == spec_parse_definition_items(
                items@.take(i as int),
                indent,
            ).lines,
            doc@ == (DocumentView {
                links: old(doc)@.links + spec_parse_definition_items(
                    items@.take(i as int),
                    indent,
                ).links,
                ..old(doc)@
            }),
            warnings@ == old(warnings)@ + spec_parse_definition_items(
                items@.take(i as int),
                indent,
            ).warnings,
        decreases items@.len() - i,
    {
        let item = &items[i];
        let mut parsed_item = String::new();
        match item.type_ {
            DefinitionListItemType::Details => {
                parsed_item.append("  ");
            },
            DefinitionListItemType::Term => {},
        }
        let ghost prefix = spec_definition_prefix(item.type_);
        let ghost doc_links0 = doc@.links;
        let ghost warnings0 = warnings@;
        let mut j: usize = 0;
        while j < item.nodes.len()
            invariant
                i < items@.len(),
                *item == items@[i as int],
                j <= item.nodes@.len(),
                parsed_item@ == prefix + spec_item_nodes(
                    item.nodes@.take(j as int),
                    indent,
                ).text,
                doc@ == (DocumentView {
                    links: doc_links0 + spec_item_nodes(
                        item.nodes@.take(j as int),
                        indent,
                    ).links,
                    ..old(doc)@
                }),
                warnings@ == warnings0 + spec_item_nodes(
                    item.nodes@.take(j as int),
                    indent,
                ).warnings,
            decreases item.nodes@.len() - j,
        {
            proof {
                lemma_item_nodes_step(item.nodes@, indent, j as int);
            }
            match &item.nodes[j] {
                Node::Text { value } => {
                    parsed_item.append(value.as_str());
                },
                Node::CharacterEntity { character } => {
                    push_char(&mut parsed_item, *character);
                },
                Node::Link { target, text } => {
                    let link_text = extract_link_text(target.as_str(), text);
                    let shown = link_text.clone_text();
                    parsed_item.append(shown.as_str());
                    doc.links.push(link_text);
                },
                Node::ExternalLink { nodes } => {
                    let link_text = extract_external_link_text(nodes, warnings);
                    let shown = link_text.clone_text();
                    parsed_item.append(shown.as_str());
                    doc.links.push(link_text);
                },
                Node::UnorderedList { items: inner } => {
                    proof {
                        assert(decreases_to!(items@ => items@[i as int]));
                        assert(decreases_to!(*item => item.nodes));
                        assert(decreases_to!(item.nodes@ => item.nodes@[j as int]));
                        assert(item.nodes@[j as int] == (Node::UnorderedList { items: *inner }));
                        assert(decreases_to!(item.nodes@[j as int] => *inner));
                        assert(decreases_to!(items@ => inner@));
                    }
                    let next = bump_indent(indent);
                    let inner_items = parse_items(inner, doc, next, warnings);
                    indent_items(indent, &mut parsed_item, inner_items);
                },
                Node::OrderedList { items: inner } => {
                    proof {
                        assert(decreases_to!(items@ => items@[i as int]));
                        assert(decreases_to!(*item => item.nodes));
                        assert(decreases_to!(item.nodes@ => item.nodes@[j as int]));
                        assert(item.nodes@[j as int] == (Node::OrderedList { items: *inner }));
                        assert(decreases_to!(item.nodes@[j as int] => *inner));
                        assert(decreases_to!(items@ => inner@));
                    }
                    let next = bump_indent(indent);
                    let inner_items = parse_order_items(inner, doc, next, warnings);
                    indent_items(indent, &mut parsed_item, inner_items);
                },
                Node::DefinitionList { items: inner } => {
                    proof {
                        assert(decreases_to!(items@ => items@[i as int]));
                        assert(decreases_to!(*item => item.nodes));
                        assert(decreases_to!(item.nodes@ => item.nodes@[j as int]));
                        assert(item.nodes@[j as int] == (Node::DefinitionList { items: *inner }));
                        assert(decreases_to!(item.nodes@[j as int] => *inner));
                        assert(decreases_to!(items@ => inner@));
                    }
                    let next = bump_indent(indent);
                    let inner_items = parse_definition_items(inner, doc, next, warnings);
                    indent_items(indent, &mut parsed_item, inner_items);
                },
                Node::Template { name, parameters } => {
                    match parse_template(name, parameters, warnings) {
                        Some(template) => {
                            parsed_item.append(template.as_str());
                        },
                        None => {},
                    }
                },
                _ => {},
            }
            proof {
                let one = spec_item_node(item.nodes@[j as int], indent);
                let pre = spec_item_nodes(item.nodes@.take(j as int), indent);
                assert(doc@.links =~= doc_links0 + pre.links + one.links);
                assert(doc_links0 + pre.links + one.links =~= doc_links0 + (pre.links
                    + one.links));
                assert(parsed_item@ =~= prefix + spec_item_nodes(
                    item.nodes@.take(j + 1),
                    indent,
                ).text);
                assert(doc@.links =~= doc_links0 + spec_item_nodes(
                    item.nodes@.take(j + 1),
                    indent,
                ).links);
                assert(warnings@ =~= warnings0 + spec_item_nodes(
                    item.nodes@.take(j + 1),
                    indent,
                ).warnings);
            }
            j = j + 1;
        }
        proof {
            assert(item.nodes@.take(item.nodes@.len() as int) =~= item.nodes@);
            lemma_parse_definition_items_step(items@, indent, i as int);
        }
        parsed_items.push(parsed_item);
        proof {
            assert(parsed_items@.map_values(|s: String| s@) =~= spec_parse_definition_items(
                items@.take(i + 1),
                indent,
            ).lines);
            assert(doc@.links =~= old(doc)@.links + spec_parse_definition_items(
                items@.take(i + 1),
                indent,
            ).links);
            assert(warnings@ =~= old(warnings)@ + spec_parse_definition_items(
                items@.take(i + 1),
                indent,
            ).warnings);
        }
        i = i + 1;
    }
    proof {
        assert(items@.take(items@.len() as int) =~= items@);
    }
    parsed_items
}

} // verus!
