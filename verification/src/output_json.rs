//! The serialized shape of a document — one JSON line per page — and the
//! batched file-rotation bookkeeping of the output sink.

use crate::parser::model::{Document, DocumentView, Image, ImageType, ImageView, Link, LinkView,
    Text, TextView};
use crate::strutil::push_char;
use vstd::prelude::*;
use vstd::string::*;

verus! {

/// The hexadecimal digit for a value below 16.
pub open spec fn spec_hex_digit(d: int) -> char {
    "0123456789abcdef"@[d]
}

/// The escape of one character inside a JSON string literal: quote,
/// backslash and the named control characters get two-character escapes,
/// any other control character a `\u00XX` escape, everything else itself.
pub open spec fn spec_escape_char(c: char) -> Seq<char> {
    if c == '"' {
        seq!['\\', '"']
    } else if c == '\\' {
        seq!['\\', '\\']
    } else if c == '\n' {
        seq!['\\', 'n']
    } else if c == '\r' {
        seq!['\\', 'r']
    } else if c == '\t' {
        seq!['\\', 't']
    } else if (c as u32) < 32 {
        seq!['\\', 'u', '0', '0', spec_hex_digit(c as int / 16), spec_hex_digit(c as int % 16)]
    } else {
        seq![c]
    }
}

pub open spec fn spec_escape(s: Seq<char>) -> Seq<char>
    decreases s.len(),
{
    if s.len() == 0 {
        Seq::empty()
    } else {
        spec_escape(s.drop_last()) + spec_escape_char(s.last())
    }
}

/// A JSON string literal: the escaped text between double quotes.
pub open spec fn spec_json_string(s: Seq<char>) -> Seq<char> {
    seq!['"'] + spec_escape(s) + seq!['"']
}

proof fn lemma_escape_step(s: Seq<char>, i: int)
    requires
        0 <= i < s.len(),
    ensures
        spec_escape(s.take(i + 1)) == spec_escape(s.take(i)) + spec_escape_char(s[i]),
{
    assert(s.take(i + 1).drop_last() =~= s.take(i));
    assert(s.take(i + 1).last() == s[i]);
}

fn hex_digit(d: u32) -> (c: char)
    requires
        d < 16,
    ensures
        c == spec_hex_digit(d as int),
{
    proof {
        reveal_strlit("0123456789abcdef");
    }
    "0123456789abcdef".get_char(d as usize)
}

/// Appends `s` as a JSON string literal, quotes included.
fn push_json_string(out: &mut String, s: &str)
    ensures
        final(out)@ == old(out)@ + spec_json_string(s@),
{
    push_char(out, '"');
    let len = s.unicode_len();
    let mut i: usize = 0;
    while i < len
        invariant
            len == s@.len(),
            i <= len,
            out@ == old(out)@ + seq!['"'] + spec_escape(s@.take(i as int)),
        decreases len - i,
    {
        proof {
            lemma_escape_step(s@, i as int);
        }
        let c = s.get_char(i);
        if c == '"' {
            push_char(out, '\\');
            push_char(out, '"');
        } else if c == '\\' {
            push_char(out, '\\');
            push_char(out, '\\');
        } else if c == '\n' {
            push_char(out, '\\');
            push_char(out, 'n');
        } else if c == '\r' {
            push_char(out, '\\');
            push_char(out, 'r');
        } else if c == '\t' {
            push_char(out, '\\');
            push_char(out, 't');
        } else if (c as u32) < 32 {
            push_char(out, '\\');
            push_char(out, 'u');
            push_char(out, '0');
            push_char(out, '0');
            let hi = hex_digit((c as u32) / 16);
            push_char(out, hi);
            let lo = hex_digit((c as u32) % 16);
            push_char(out, lo);
        } else {
            push_char(out, c);
        }
        proof {
            assert(out@ =~= old(out)@ + seq!['"'] + spec_escape(s@.take(i + 1)));
        }
        i = i + 1;
    }
    push_char(out, '"');
    proof {
        assert(s@.take(s@.len() as int) =~= s@);
        assert(out@ =~= old(out)@ + spec_json_string(s@));
    }
}

/// The comma-separated join of already-rendered JSON values.
pub open spec fn spec_join_comma(xs: Seq<Seq<char>>) -> Seq<char>
    decreases xs.len(),
{
    if xs.len() == 0 {
        Seq::empty()
    } else {
        spec_join_comma(xs.drop_last()) + (if xs.len() > 1 {
            ","@
        } else {
            Seq::empty()
        }) + xs.last()
    }
}

proof fn lemma_join_comma_step(xs: Seq<Seq<char>>, k: int)
    requires
        0 <= k < xs.len(),
    ensures
        spec_join_comma(xs.take(k + 1)) == spec_join_comma(xs.take(k)) + (if k > 0 {
            ","@
        } else {
            Seq::<char>::empty()
        }) + xs[k],
{
    assert(xs.take(k + 1).drop_last() =~= xs.take(k));
    assert(xs.take(k + 1).last() == xs[k]);
}

/// A JSON array of string literals.
pub open spec fn spec_string_array(xs: Seq<Seq<char>>) -> Seq<char> {
    "["@ + spec_join_comma(xs.map_values(|s: Seq<char>| spec_json_string(s))) + "]"@
}

/// Appends the elements of `xs` as a JSON array of strings.
fn push_string_array(out: &mut String, xs: &Vec<String>)
    ensures
        final(out)@ == old(out)@ + spec_string_array(xs@.map_values(|s: String| s@)),
{
    let ghost rendered = xs@.map_values(|s: String| s@).map_values(
        |s: Seq<char>| spec_json_string(s),
    );
    out.append("[");
    let mut k: usize = 0;
    while k < xs.len()
        invariant
            k <= xs@.len(),
            rendered == xs@.map_values(|s: String| s@).map_values(
                |s: Seq<char>| spec_json_string(s),
            ),
            rendered.len() == xs@.len(),
            out@ == old(out)@ + "["@ + spec_join_comma(rendered.take(k as int)),
        decreases xs@.len() - k,
    {
        proof {
            lemma_join_comma_step(rendered, k as int);
        }
        if k > 0 {
            out.append(",");
        }
        push_json_string(out, xs[k].as_str());
        proof {
            assert(rendered[k as int] == spec_json_string(xs@[k as int]@));
            assert(out@ =~= old(out)@ + "["@ + spec_join_comma(rendered.take(k + 1)));
        }
        k = k + 1;
    }
    out.append("]");
    proof {
        assert(rendered.take(rendered.len() as int) =~= rendered);
        assert(out@ =~= old(out)@ + spec_string_array(xs@.map_values(|s: String| s@)));
    }
}

/// The target a link points at, whichever kind it is.
pub open spec fn spec_link_target(l: LinkView) -> Seq<char> {
    match l {
        LinkView::Link { link_target } => link_target,
        LinkView::ExternalLink { link_target } => link_target,
    }
}

/// The JSON object of a text span: `text`, plus `target` only for the
/// linked variant — the presence of `target` is the discriminant.
pub open spec fn spec_text_json(t: TextView) -> Seq<char> {
    match t {
        TextView::Text { text } => "{\"text\":"@ + spec_json_string(text) + "}"@,
        TextView::LinkText { text, link } => "{\"text\":"@ + spec_json_string(text)
            + ",\"target\":"@ + spec_json_string(spec_link_target(link)) + "}"@,
    }
}

fn push_text_json(out: &mut String, t: &Text)
    ensures
        final(out)@ == old(out)@ + spec_text_json(t@),
{
    match t {
        Text::Text { text } => {
            out.append("{\"text\":");
            push_json_string(out, text.as_str());
            out.append("}");
        },
        Text::LinkText { text, link } => {
            out.append("{\"text\":");
            push_json_string(out, text.as_str());
            out.append(",\"target\":");
            match link {
                Link::Link { link_target } => push_json_string(out, link_target.as_str()),
                Link::ExternalLink { link_target } => push_json_string(out, link_target.as_str()),
            }
            out.append("}");
        },
    }
    proof {
        assert(out@ =~= old(out)@ + spec_text_json(t@));
    }
}

/// The JSON name of an image's namespace kind.
pub open spec fn spec_image_type_json(t: ImageType) -> Seq<char> {
    match t {
        ImageType::Image => "\"Image\""@,
        ImageType::File => "\"File\""@,
    }
}

/// The JSON object of an image: target, namespace kind and caption.
pub open spec fn spec_image_json(i: ImageView) -> Seq<char> {
    "{\"target\":"@ + spec_json_string(i.target) + ",\"target_type\":"@ + spec_image_type_json(
        i.target_type,
    ) + ",\"text\":"@ + spec_text_json(i.text) + "}"@
}

fn push_image_json(out: &mut String, i: &Image)
    ensures
        final(out)@ == old(out)@ + spec_image_json(i@),
{
    out.append("{\"target\":");
    push_json_string(out, i.target.as_str());
    out.append(",\"target_type\":");
    match i.target_type {
        ImageType::Image => out.append("\"Image\""),
        ImageType::File => out.append("\"File\""),
    }
    out.append(",\"text\":");
    push_text_json(out, &i.text);
    out.append("}");
    proof {
        assert(out@ =~= old(out)@ + spec_image_json(i@));
    }
}

/// A JSON array of text spans.
pub open spec fn spec_texts_array(xs: Seq<TextView>) -> Seq<char> {
    "["@ + spec_join_comma(xs.map_values(|t: TextView| spec_text_json(t))) + "]"@
}

fn push_texts_array(out: &mut String, xs: &Vec<Text>)
    ensures
        final(out)@ == old(out)@ + spec_texts_array(xs@.map_values(|t: Text| t@)),
{
    let ghost rendered = xs@.map_values(|t: Text| t@).map_values(
        |t: TextView| spec_text_json(t),
    );
    out.append("[");
    let mut k: usize = 0;
    while k < xs.len()
        invariant
            k <= xs@.len(),
            rendered == xs@.map_values(|t: Text| t@).map_values(
                |t: TextView| spec_text_json(t),
            ),
            rendered.len() == xs@.len(),
            out@ == old(out)@ + "["@ + spec_join_comma(rendered.take(k as int)),
        decreases xs@.len() - k,
    {
        proof {
            lemma_join_comma_step(rendered, k as int);
        }
        if k > 0 {
            out.append(",");
        }
        push_text_json(out, &xs[k]);
        proof {
            assert(rendered[k as int] == spec_text_json(xs@[k as int]@));
            assert(out@ =~= old(out)@ + "["@ + spec_join_comma(rendered.take(k + 1)));
        }
        k = k + 1;
    }
    out.append("]");
    proof {
        assert(rendered.take(rendered.len() as int) =~= rendered);
        assert(out@ =~= old(out)@ + spec_texts_array(xs@.map_values(|t: Text| t@)));
    }
}

/// A JSON array of images.
pub open spec fn spec_images_array(xs: Seq<ImageView>) -> Seq<char> {
    "["@ + spec_join_comma(xs.map_values(|i: ImageView| spec_image_json(i))) + "]"@
}

fn push_images_array(out: &mut String, xs: &Vec<Image>)
    ensures
        final(out)@ == old(out)@ + spec_images_array(xs@.map_values(|i: Image| i@)),
{
    let ghost rendered = xs@.map_values(|i: Image| i@).map_values(
        |i: ImageView| spec_image_json(i),
    );
    out.append("[");
    let mut k: usize = 0;
    while k < xs.len()
        invariant
            k <= xs@.len(),
            rendered == xs@.map_values(|i: Image| i@).map_values(
                |i: ImageView| spec_image_json(i),
            ),
            rendered.len() == xs@.len(),
            out@ == old(out)@ + "["@ + spec_join_comma(rendered.take(k as int)),
        decreases xs@.len() - k,
    {
        proof {
            lemma_join_comma_step(rendered, k as int);
        }
        if k > 0 {
            out.append(",");
        }
        push_image_json(out, &xs[k]);
        proof {
            assert(rendered[k as int] == spec_image_json(xs@[k as int]@));
            assert(out@ =~= old(out)@ + "["@ + spec_join_comma(rendered.take(k + 1)));
        }
        k = k + 1;
    }
    out.append("]");
    proof {
        assert(rendered.take(rendered.len() as int) =~= rendered);
        assert(out@ =~= old(out)@ + spec_images_array(xs@.map_values(|i: Image| i@)));
    }
}

/// The JSON-lines record of one document: its fields in declaration order,
/// with `redirect_to` present only when set.
pub open spec fn spec_document_json(d: DocumentView) -> Seq<char> {
    "{\"id\":"@ + spec_json_string(d.id) + ",\"title\":"@ + spec_json_string(d.title)
        + ",\"timestamp\":"@ + spec_json_string(d.timestamp) + ",\"revision_id\":"@
        + spec_json_string(d.revision_id) + ",\"url\":"@ + spec_json_string(d.url)
        + ",\"contents\":"@ + spec_string_array(d.contents) + ",\"categories\":"@
        + spec_string_array(d.categories) + ",\"headings\":"@ + spec_string_array(d.headings)
        + ",\"images\":"@ + spec_images_array(d.images) + ",\"links\":"@ + spec_texts_array(
        d.links,
    ) + (match d.redirect_to {
        Some(r) => ",\"redirect_to\":"@ + spec_json_string(r),
        None => Seq::empty(),
    }) + "}"@
}

/// Renders one document as its JSON-lines record (without the line break).
pub fn document_json_line(doc: &Document) -> (r: String)
    ensures
        r@ == spec_document_json(doc@),
{
    let mut out = String::new();
    out.append("{\"id\":");
    push_json_string(&mut out, doc.id.as_str());
    out.append(",\"title\":");
    push_json_string(&mut out, doc.title.as_str());
    out.append(",\"timestamp\":");
    push_json_string(&mut out, doc.timestamp.as_str());
    out.append(",\"revision_id\":");
    push_json_string(&mut out, doc.revision_id.as_str());
    out.append(",\"url\":");
    push_json_string(&mut out, doc.url.as_str());
    out.append(",\"contents\":");
    push_string_array(&mut out, &doc.contents);
    out.append(",\"categories\":");
    push_string_array(&mut out, &doc.categories);
    out.append(",\"headings\":");
    push_string_array(&mut out, &doc.headings);
    out.append(",\"images\":");
    push_images_array(&mut out, &doc.images);
    out.append(",\"links\":");
    push_texts_array(&mut out, &doc.links);
    match &doc.redirect_to {
        Some(r) => {
            out.append(",\"redirect_to\":");
            push_json_string(&mut out, r.as_str());
        },
        None => {},
    }
    out.append("}");
    proof {
        assert(out@ =~= spec_document_json(doc@));
    }
    out
}

/// The output sink's rotation bookkeeping: how many records the open file
/// holds, the batch size, and the index of the open file.
pub struct OutputRotation {
    pub counter: u16,
    pub page_limit: u16,
    pub file_counter: u16,
}

impl OutputRotation {
    /// The batch size is positive and the open file has room.
    pub open spec fn wf(self) -> bool {
        1 <= self.page_limit && self.counter < self.page_limit
    }

    /// Fresh bookkeeping: nothing written, file index zero.
    pub fn new(page_limit: u16) -> (r: OutputRotation)
        requires
            1 <= page_limit,
        ensures
            r.counter == 0,
            r.file_counter == 0,
            r.page_limit == page_limit,
            r.wf(),
    {
        OutputRotation { counter: 0, page_limit, file_counter: 0 }
    }

    /// The index of the file the next record is written to.
    pub fn current_file(&self) -> (r: u16)
        ensures
            r == self.file_counter,
    {
        self.file_counter
    }

    /// Notes one written record; when that fills the batch, rotates to the
    /// next file and returns its index.
    pub fn record(&mut self) -> (rotated: Option<u16>)
        requires
            old(self).wf(),
            old(self).file_counter < u16::MAX,
        ensures
            final(self).wf(),
            final(self).page_limit == old(self).page_limit,
            match rotated {
                Some(next) => old(self).counter + 1 == old(self).page_limit
                    && final(self).counter == 0
                    && final(self).file_counter == old(self).file_counter + 1
                    && next == final(self).file_counter,
                None => old(self).counter + 1 < old(self).page_limit
                    && final(self).counter == old(self).counter + 1
                    && final(self).file_counter == old(self).file_counter,
            },
    {
        self.counter = self.counter + 1;
        if self.counter == self.page_limit {
            self.file_counter = self.file_counter + 1;
            self.counter = 0;
            Some(self.file_counter)
        } else {
            None
        }
    }
}

/// The rotation state — records in the open file, complete files — after
/// `n` records with batch size `limit`, stepping as `record` does.
pub open spec fn spec_rotation_iter(limit: nat, n: nat) -> (nat, nat)
    decreases n,
{
    if n == 0 {
        (0nat, 0nat)
    } else {
        let prev = spec_rotation_iter(limit, (n - 1) as nat);
        if prev.0 + 1 == limit {
            (0nat, prev.1 + 1)
        } else {
            (prev.0 + 1, prev.1)
        }
    }
}

/// After `n` records with batch size `limit`, the open file holds
/// `n % limit` records and `n / limit` earlier files are full; so record
/// number `k` (counting from zero) lands in file `k / limit`.
pub proof fn lemma_rotation_counts(limit: nat, n: nat)
    requires
        1 <= limit,
    ensures
        spec_rotation_iter(limit, n).0 == n % limit,
        spec_rotation_iter(limit, n).1 == n / limit,
    decreases n,
{
    if n == 0 {
    } else {
        lemma_rotation_counts(limit, (n - 1) as nat);
        let q = (n - 1) as int / (limit as int);
        let r = (n - 1) as int % (limit as int);
        vstd::arithmetic::div_mod::lemma_fundamental_div_mod((n - 1) as int, limit as int);
        if r + 1 == limit {
            assert(n as int == (q + 1) * (limit as int) + 0) by (nonlinear_arith)
                requires
                    n as int - 1 == (limit as int) * q + r,
                    r + 1 == limit as int,
            ;
            vstd::arithmetic::div_mod::lemma_fundamental_div_mod_converse(
                n as int,
                limit as int,
                q + 1,
                0,
            );
        } else {
            assert(n as int == q * (limit as int) + (r + 1)) by (nonlinear_arith)
                requires
                    n as int - 1 == (limit as int) * q + r,
            ;
            vstd::arithmetic::div_mod::lemma_fundamental_div_mod_converse(
                n as int,
                limit as int,
                q,
                r + 1,
            );
        }
    }
}

} // verus!
