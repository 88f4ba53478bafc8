//! The document builder: a single depth-first pass over a page's top-level
//! node sequence that populates a fresh document.

use crate::page_stream::{Page, PageView};
use crate::parser::common_parser::{
    extract_external_link_text, extract_heading_text, extract_image, extract_link_text,
    spec_extract_image, spec_external_link_parts, spec_external_link_text, spec_text_only,
};
use crate::parser::list_parser::{
    indent_items, parse_definition_items, parse_items, parse_order_items, spec_indent_items,
    spec_parse_definition_items, spec_parse_items, spec_parse_order_items,
};
use crate::parser::model::{Document, DocumentView, LinkView, TextView, Warning};
use crate::parser::nodes::Node;
use crate::parser::template_parser::{parse_template, spec_parse_template};
use crate::strutil::{
    has_prefix, push_char, spec_has_prefix, spec_trim, str_eq, trim,
};
use vstd::prelude::*;
use vstd::string::*;

verus! {

/// The category name of a category node's target: surrounding whitespace and
/// the literal namespace prefix are stripped.
pub open spec fn spec_category_name(target: Seq<char>) -> Seq<char> {
    let t = spec_trim(target);
    let u = if spec_has_prefix(t, "Category:"@) {
        t.subrange("Category:"@.len() as int, t.len() as int)
    } else {
        t
    };
    spec_trim(u)
}

/// Strips whitespace and the category namespace prefix from a raw target.
pub fn strip_category(target: &str) -> (r: String)
    ensures
        r@ == spec_category_name(target@),
{
    let t = trim(target);
    let prefix = "Category:";
    if has_prefix(t.as_str(), prefix) {
        let plen = prefix.unicode_len();
        let tlen = t.as_str().unicode_len();
        let rest = t.as_str().substring_char(plen, tlen);
        trim(rest)
    } else {
        trim(t.as_str())
    }
}

/// The walk's state: the document so far, the open text segment, and the
/// warnings noted so far.
#[verifier::ext_equal]
pub struct BuildState {
    pub doc: DocumentView,
    pub segment: Seq<char>,
    pub warnings: Seq<Warning>,
}

/// The fresh state for one page: identifying fields copied from the page,
/// the page URL derived from its id, everything else empty.
pub open spec fn spec_initial_state(page: PageView) -> BuildState {
    BuildState {
        doc: DocumentView {
            id: page.id,
            title: page.title,
            timestamp: page.timestamp,
            revision_id: page.revision_id,
            url: "https://ja.wikipedia.org/wiki?curid="@ + page.id,
            contents: Seq::empty(),
            categories: Seq::empty(),
            headings: Seq::empty(),
            images: Seq::empty(),
            links: Seq::empty(),
            redirect_to: None,
        },
        segment: Seq::empty(),
        warnings: Seq::empty(),
    }
}

/// One step of the walk: what a single top-level node does to the state.
pub open spec fn spec_step_node(s: BuildState, n: Node) -> BuildState {
    match n {
        Node::Category { target } => BuildState {
            doc: DocumentView {
                categories: s.doc.categories.push(spec_category_name(target@)),
                ..s.doc
            },
            ..s
        },
        Node::CharacterEntity { character } => BuildState {
            segment: s.segment.push(character),
            ..s
        },
        Node::Text { value } => {
            if value@ == "\n"@ {
                s
            } else {
                BuildState { segment: s.segment + value@, ..s }
            }
        },
        Node::Heading { nodes } => BuildState {
            doc: DocumentView {
                contents: s.doc.contents.push(s.segment),
                headings: s.doc.headings.push(spec_text_only(nodes@)),
                ..s.doc
            },
            segment: spec_text_only(nodes@).push('\n'),
            ..s
        },
        Node::ExternalLink { nodes } => BuildState {
            doc: DocumentView {
                links: s.doc.links.push(spec_external_link_text(nodes@)),
                ..s.doc
            },
            segment: s.segment + spec_external_link_text(nodes@).text_part(),
            warnings: s.warnings + spec_external_link_parts(nodes@).1,
        },
        Node::Image { target, text } => {
            match spec_extract_image(target@, text@) {
                Some(v) => BuildState {
                    doc: DocumentView { images: s.doc.images.push(v), ..s.doc },
                    ..s
                },
                None => BuildState { warnings: s.warnings.push(Warning::BadImageTarget), ..s },
            }
        },
        Node::Link { target, text } => BuildState {
            doc: DocumentView {
                links: s.doc.links.push(
                    TextView::LinkText {
                        text: spec_text_only(text@),
                        link: LinkView::Link { link_target: target@ },
                    },
                ),
                ..s.doc
            },
            segment: s.segment + spec_text_only(text@),
            ..s
        },
        Node::UnorderedList { items } => {
            let sub = spec_parse_items(items@, 1);
            BuildState {
                doc: DocumentView { links: s.doc.links + sub.links, ..s.doc },
                segment: s.segment + spec_indent_items(0, sub.lines),
                warnings: s.warnings + sub.warnings,
            }
        },
        Node::OrderedList { items } => {
            let sub = spec_parse_order_items(items@, 1);
            BuildState {
                doc: DocumentView { links: s.doc.links + sub.links, ..s.doc },
                segment: s.segment + spec_indent_items(0, sub.lines),
                warnings: s.warnings + sub.warnings,
            }
        },
        Node::DefinitionList { items } => {
            let sub = spec_parse_definition_items(items@, 1);
            BuildState {
                doc: DocumentView { links: s.doc.links + sub.links, ..s.doc },
                segment: s.segment + spec_indent_items(0, sub.lines),
                warnings: s.warnings + sub.warnings,
            }
        },
        Node::ParagraphBreak => BuildState { segment: s.segment + "\n"@, ..s },
        Node::Template { name, parameters } => {
            let sub = spec_parse_template(name@, parameters@);
            BuildState {
                segment: match sub.0 {
                    Some(t) => s.segment + t,
                    None => s.segment,
                },
                warnings: if sub.1 {
                    s.warnings.push(Warning::MissingTemplateParam)
                } else {
                    s.warnings
                },
                ..s
            }
        },
        Node::Redirect { target } => BuildState {
            doc: DocumentView { redirect_to: Some(target@), ..s.doc },
            ..s
        },
        _ => s,
    }
}

/// The walk over a whole top-level node sequence.
pub open spec fn spec_walk(s: BuildState, nodes: Seq<Node>) -> BuildState
    decreases nodes.len(),
{
    if nodes.len() == 0 {
        s
    } else {
        spec_step_node(spec_walk(s, nodes.drop_last()), nodes.last())
    }
}

proof fn lemma_walk_step(s: BuildState, nodes: Seq<Node>, i: int)
    requires
        0 <= i < nodes.len(),
    ensures
        spec_walk(s, nodes.take(i + 1)) == spec_step_node(spec_walk(s, nodes.take(i)), nodes[i]),
{
    assert(nodes.take(i + 1).drop_last() =~= nodes.take(i));
    assert(nodes.take(i + 1).last() == nodes[i]);
}

/// The end-of-walk policy: a non-empty open segment is flushed as the final
/// contents entry; an empty one is dropped.
pub open spec fn spec_finish(s: BuildState) -> BuildState {
    if s.segment.len() > 0 {
        BuildState { doc: DocumentView { contents: s.doc.contents.push(s.segment), ..s.doc }, ..s }
    } else {
        s
    }
}

/// The document a page's node tree builds, with the warnings noted on the
/// way.
pub open spec fn spec_build_document(page: PageView, nodes: Seq<Node>) -> BuildState {
    spec_finish(spec_walk(spec_initial_state(page), nodes))
}

proof fn lemma_walk_preserves_alignment(s: BuildState, nodes: Seq<Node>)
    requires
        s.doc.contents.len() == s.doc.headings.len(),
    ensures
        spec_walk(s, nodes).doc.contents.len() == spec_walk(s, nodes).doc.headings.len(),
    decreases nodes.len(),
{
    if nodes.len() > 0 {
        lemma_walk_preserves_alignment(s, nodes.drop_last());
    }
}

/// Law: every document the builder produces has one body segment per
/// heading, plus at most one segment more — the trailing open segment that
/// the end of the walk flushes when it is non-empty.
pub proof fn lemma_contents_headings_aligned(page: PageView, nodes: Seq<Node>)
    ensures
        spec_build_document(page, nodes).doc.contents.len() == spec_build_document(
            page,
            nodes,
        ).doc.headings.len() || spec_build_document(page, nodes).doc.contents.len()
            == spec_build_document(page, nodes).doc.headings.len() + 1,
{
    lemma_walk_preserves_alignment(spec_initial_state(page), nodes);
}

/// Law: a redirect node only sets the document's redirect target; it opens
/// no segment, closes none, and touches neither headings nor contents.
pub proof fn lemma_redirect_step(s: BuildState, target: String)
    ensures
        spec_step_node(s, Node::Redirect { target }) == (BuildState {
            doc: DocumentView { redirect_to: Some(target@), ..s.doc },
            ..s
        }),
{
}

/// Two document models that agree on every field but the redirect target.
pub open spec fn doc_eq_except_redirect(a: DocumentView, b: DocumentView) -> bool {
    a == (DocumentView { redirect_to: a.redirect_to, ..b })
}

/// The walk over a concatenation is the walk over the first part continued
/// over the second.
proof fn lemma_walk_concat(s: BuildState, a: Seq<Node>, b: Seq<Node>)
    ensures
        spec_walk(s, a + b) == spec_walk(spec_walk(s, a), b),
    decreases b.len(),
{
    if b.len() == 0 {
        assert(a + b =~= a);
    } else {
        lemma_walk_concat(s, a, b.drop_last());
        assert((a + b).drop_last() =~= a + b.drop_last());
        assert((a + b).last() == b.last());
    }
}

/// The warnings that handling one top-level node appends; they are a
/// function of the node alone, never of the state.
pub open spec fn spec_step_warnings(n: Node) -> Seq<Warning> {
    match n {
        Node::ExternalLink { nodes } => spec_external_link_parts(nodes@).1,
        Node::Image { target, text } => match spec_extract_image(target@, text@) {
            Some(_) => Seq::empty(),
            None => seq![Warning::BadImageTarget],
        },
        Node::Template { name, parameters } => {
            if spec_parse_template(name@, parameters@).1 {
                seq![Warning::MissingTemplateParam]
            } else {
                Seq::empty()
            }
        },
        Node::UnorderedList { items } => spec_parse_items(items@, 1).warnings,
        Node::OrderedList { items } => spec_parse_order_items(items@, 1).warnings,
        Node::DefinitionList { items } => spec_parse_definition_items(items@, 1).warnings,
        _ => Seq::empty(),
    }
}

/// The warnings a whole walk appends, node by node.
pub open spec fn spec_walk_warnings(q: Seq<Node>) -> Seq<Warning>
    decreases q.len(),
{
    if q.len() == 0 {
        Seq::empty()
    } else {
        spec_walk_warnings(q.drop_last()) + spec_step_warnings(q.last())
    }
}

proof fn lemma_step_warnings(s: BuildState, n: Node)
    ensures
        spec_step_node(s, n).warnings == s.warnings + spec_step_warnings(n),
{
    assert(spec_step_node(s, n).warnings =~= s.warnings + spec_step_warnings(n));
}

proof fn lemma_walk_warnings(s: BuildState, q: Seq<Node>)
    ensures
        spec_walk(s, q).warnings == s.warnings + spec_walk_warnings(q),
    decreases q.len(),
{
    if q.len() == 0 {
        assert(s.warnings =~= s.warnings + spec_walk_warnings(q));
    } else {
        lemma_walk_warnings(s, q.drop_last());
        lemma_step_warnings(spec_walk(s, q.drop_last()), q.last());
        assert(spec_walk(s, q).warnings =~= s.warnings + spec_walk_warnings(q));
    }
}

/// No node's handling reads the warnings noted so far or the redirect
/// target: two states that agree on everything else keep agreeing.
proof fn lemma_step_congruence(a: BuildState, b: BuildState, n: Node)
    requires
        doc_eq_except_redirect(a.doc, b.doc),
        a.segment == b.segment,
    ensures
        doc_eq_except_redirect(spec_step_node(a, n).doc, spec_step_node(b, n).doc),
        spec_step_node(a, n).segment == spec_step_node(b, n).segment,
        !(n is Redirect) ==> spec_step_node(a, n).doc.redirect_to == a.doc.redirect_to
            && spec_step_node(b, n).doc.redirect_to == b.doc.redirect_to,
        n is Redirect ==> spec_step_node(a, n).doc.redirect_to == spec_step_node(
            b,
            n,
        ).doc.redirect_to,
{
    let sa = spec_step_node(a, n);
    let sb = spec_step_node(b, n);
    assert(sa.doc =~= (DocumentView { redirect_to: sa.doc.redirect_to, ..sb.doc }));
}

proof fn lemma_walk_congruence(a: BuildState, b: BuildState, q: Seq<Node>)
    requires
        doc_eq_except_redirect(a.doc, b.doc),
        a.segment == b.segment,
    ensures
        doc_eq_except_redirect(spec_walk(a, q).doc, spec_walk(b, q).doc),
        spec_walk(a, q).segment == spec_walk(b, q).segment,
        a.doc.redirect_to == b.doc.redirect_to ==> spec_walk(a, q).doc.redirect_to == spec_walk(
            b,
            q,
        ).doc.redirect_to,
        (forall|i: int| 0 <= i < q.len() ==> !(q[i] is Redirect)) ==> spec_walk(
            a,
            q,
        ).doc.redirect_to == a.doc.redirect_to && spec_walk(b, q).doc.redirect_to
            == b.doc.redirect_to,
    decreases q.len(),
{
    if q.len() > 0 {
        let front = q.drop_last();
        assert(forall|i: int| 0 <= i < front.len() ==> front[i] == q[i]);
        lemma_walk_congruence(a, b, front);
        lemma_step_congruence(spec_walk(a, front), spec_walk(b, front), q.last());
    }
}

/// Law: wherever a redirect node stands in a page's node tree, it only sets
/// the document's redirect target. The document built with it agrees with
/// the one built without it on contents, headings, categories, images,
/// links, the open segment and the warnings; and when no redirect follows
/// it, the target set is its own.
pub proof fn lemma_redirect_in_place(
    page: PageView,
    before: Seq<Node>,
    target: String,
    after: Seq<Node>,
)
    ensures
        ({
            let with = spec_build_document(page, before + seq![Node::Redirect { target }] + after);
            let without = spec_build_document(page, before + after);
            &&& doc_eq_except_redirect(with.doc, without.doc)
            &&& with.segment == without.segment
            &&& with.warnings == without.warnings
            &&& ((forall|i: int| 0 <= i < after.len() ==> !(after[i] is Redirect))
                ==> with.doc.redirect_to == Some(target@))
        }),
{
    let init = spec_initial_state(page);
    let r = Node::Redirect { target };
    let w0 = spec_walk(init, before);
    lemma_walk_concat(init, before + seq![r], after);
    lemma_walk_concat(init, before, seq![r]);
    lemma_walk_concat(init, before, after);
    assert(seq![r].drop_last() =~= Seq::<Node>::empty());
    let s1 = spec_step_node(w0, r);
    assert(spec_walk(w0, Seq::<Node>::empty()) == w0);
    assert(seq![r].last() == r);
    assert(spec_walk(w0, seq![r]) == spec_step_node(spec_walk(w0, seq![r].drop_last()), r));
    assert(spec_walk(init, before + seq![r]) == s1);
    assert(doc_eq_except_redirect(s1.doc, w0.doc)) by {
        assert(s1.doc =~= (DocumentView { redirect_to: s1.doc.redirect_to, ..w0.doc }));
    }
    lemma_walk_congruence(s1, w0, after);
    lemma_walk_warnings(s1, after);
    lemma_walk_warnings(w0, after);
    let wa = spec_walk(s1, after);
    let wb = spec_walk(w0, after);
    assert(wa.warnings =~= wb.warnings);
    assert(doc_eq_except_redirect(spec_finish(wa).doc, spec_finish(wb).doc)) by {
        assert(spec_finish(wa).doc =~= (DocumentView {
            redirect_to: spec_finish(wa).doc.redirect_to,
            ..spec_finish(wb).doc
        }));
    }
}

/// Law: wherever an image node with a malformed target stands in a page's
/// node tree, the image is skipped with exactly one warning noted in place,
/// and the document built is the one built without that node.
pub proof fn lemma_bad_image_skipped_in_place(
    page: PageView,
    before: Seq<Node>,
    target: String,
    text: Vec<Node>,
    after: Seq<Node>,
)
    requires
        spec_extract_image(target@, text@) is None,
    ensures
        ({
            let with = spec_build_document(page, before + seq![Node::Image { target, text }]
                + after);
            let without = spec_build_document(page, before + after);
            &&& with.doc == without.doc
            &&& with.segment == without.segment
            &&& with.warnings.len() == without.warnings.len() + 1
            &&& with.warnings == spec_walk(spec_initial_state(page), before).warnings + seq![
                Warning::BadImageTarget,
            ] + spec_walk_warnings(after)
            &&& without.warnings == spec_walk(spec_initial_state(page), before).warnings
                + spec_walk_warnings(after)
        }),
{
    let init = spec_initial_state(page);
    let img = Node::Image { target, text };
    let w0 = spec_walk(init, before);
    lemma_walk_concat(init, before + seq![img], after);
    lemma_walk_concat(init, before, seq![img]);
    lemma_walk_concat(init, before, after);
    assert(seq![img].drop_last() =~= Seq::<Node>::empty());
    let s1 = spec_step_node(w0, img);
    assert(spec_walk(w0, Seq::<Node>::empty()) == w0);
    assert(seq![img].last() == img);
    assert(spec_walk(w0, seq![img]) == spec_step_node(spec_walk(w0, seq![img].drop_last()), img));
    assert(spec_walk(init, before + seq![img]) == s1);
    assert(s1.doc == w0.doc);
    assert(s1.segment == w0.segment);
    assert(doc_eq_except_redirect(s1.doc, w0.doc)) by {
        assert(s1.doc =~= (DocumentView { redirect_to: s1.doc.redirect_to, ..w0.doc }));
    }
    lemma_walk_congruence(s1, w0, after);
    lemma_walk_warnings(s1, after);
    lemma_walk_warnings(w0, after);
    let wa = spec_walk(s1, after);
    let wb = spec_walk(w0, after);
    assert(wa.doc == wb.doc) by {
        assert(wa.doc =~= (DocumentView { redirect_to: wa.doc.redirect_to, ..wb.doc }));
        assert(wa.doc.redirect_to == wb.doc.redirect_to);
    }
    assert(wa.warnings =~= w0.warnings + seq![Warning::BadImageTarget] + spec_walk_warnings(
        after,
    ));
    assert(wb.warnings =~= w0.warnings + spec_walk_warnings(after));
}

/// Appends a heading to the document and seeds the open segment with the
/// heading text followed by a line break.
fn add_heading(heading: &str, page_content: &mut String, doc: &mut Document)
    ensures
        final(doc)@ == (DocumentView {
            headings: old(doc)@.headings.push(heading@),
            ..old(doc)@
        }),
        final(page_content)@ == (old(page_content)@ + heading@).push('\n'),
{
    doc.headings.push(heading.to_owned());
    page_content.append(heading);
    push_char(page_content, '\n');
    proof {
        assert(doc@.headings =~= old(doc)@.headings.push(heading@));
        assert(doc@ =~= (DocumentView {
            headings: old(doc)@.headings.push(heading@),
            ..old(doc)@
        }));
    }
}

/// Builds the structured document for one page by a single pass over its
/// top-level node sequence, returning it with the warnings noted on the way.
pub fn build_document(page: &Page, nodes: &Vec<Node>) -> (r: (Document, Vec<Warning>))
    ensures
        r.0@ == spec_build_document(page@, nodes@).doc,
        r.1@ == spec_build_document(page@, nodes@).warnings,
{
    let mut url = String::from_str("https://ja.wikipedia.org/wiki?curid=");
    url.append(page.id.as_str());
    let mut doc = Document {
        id: page.id.clone(),
        title: page.title.clone(),
        timestamp: page.timestamp.clone(),
        revision_id: page.revision_id.clone(),
        url,
        contents: Vec::new(),
        categories: Vec::new(),
        headings: Vec::new(),
        images: Vec::new(),
        links: Vec::new(),
        redirect_to: None,
    };
    let mut page_content = String::new();
    let mut warnings: Vec<Warning> = Vec::new();
    let ghost init = spec_initial_state(page@);
    proof {
        assert(doc@ =~= init.doc);
    }
    let mut i: usize = 0;
    while i < nodes.len()
        invariant
            i <= nodes@.len(),
            init == spec_initial_state(page@),
            (BuildState { doc: doc@, segment: page_content@, warnings: warnings@ }) == spec_walk(
                init,
                nodes@.take(i as int),
            ),
        decreases nodes@.len() - i,
    {
        proof {
            lemma_walk_step(init, nodes@, i as int);
        }
        let ghost pre = spec_walk(init, nodes@.take(i as int));
        match &nodes[i] {
            Node::Category { target } => {
                let name = strip_category(target.as_str());
                doc.categories.push(name);
            },
            Node::CharacterEntity { character } => {
                push_char(&mut page_content, *character);
            },
            Node::Text { value } => {
                if !str_eq(value.as_str(), "\n") {
                    page_content.append(value.as_str());
                }
            },
            Node::Heading { nodes: heading_nodes } => {
                let seg = page_content.clone();
                doc.contents.push(seg);
                page_content = String::new();
                let heading = extract_heading_text(heading_nodes);
                add_heading(heading.as_str(), &mut page_content, &mut doc);
            },
            Node::ExternalLink { nodes: label_nodes } => {
                let link_text = extract_external_link_text(label_nodes, &mut warnings);
                let shown = link_text.clone_text();
                page_content.append(shown.as_str());
                doc.links.push(link_text);
            },
            Node::Image { target, text } => {
                match extract_image(target.as_str(), text) {
                    Some(img) => {
                        doc.images.push(img);
                    },
                    None => {
                        warnings.push(Warning::BadImageTarget);
                    },
                }
            },
            Node::Link { target, text } => {
                let link_text = extract_link_text(target.as_str(), text);
                let shown = link_text.clone_text();
                page_content.append(shown.as_str());
                doc.links.push(link_text);
            },
            Node::UnorderedList { items } => {
                let lines = parse_items(items, &mut doc, 1, &mut warnings);
                indent_items(0, &mut page_content, lines);
            },
            Node::OrderedList { items } => {
                let lines = parse_order_items(items, &mut doc, 1, &mut warnings);
                indent_items(0, &mut page_content, lines);
            },
            Node::DefinitionList { items } => {
                let lines = parse_definition_items(items, &mut doc, 1, &mut warnings);
                indent_items(0, &mut page_content, lines);
            },
            Node::ParagraphBreak => {
                page_content.append("\n");
            },
            Node::Template { name, parameters } => {
                match parse_template(name, parameters, &mut warnings) {
                    Some(template) => {
                        page_content.append(template.as_str());
                    },
                    None => {},
                }
            },
            Node::Redirect { target } => {
                doc.redirect_to = Some(target.clone());
            },
            _ => {},
        }
        proof {
            let post = spec_step_node(pre, nodes@[i as int]);
            assert(doc@ =~= post.doc);
            assert(page_content@ =~= post.segment);
            assert(warnings@ =~= post.warnings);
            assert((BuildState { doc: doc@, segment: page_content@, warnings: warnings@ })
                =~= spec_walk(init, nodes@.take(i + 1)));
        }
        i = i + 1;
    }
    proof {
        assert(nodes@.take(nodes@.len() as int) =~= nodes@);
    }
    if page_content.as_str().unicode_len() > 0 {
        doc.contents.push(page_content);
        proof {
            assert(doc@ =~= spec_build_document(page@, nodes@).doc);
        }
        (doc, warnings)
    } else {
        (doc, warnings)
    }
}

} // verus!
