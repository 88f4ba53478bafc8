//! The page-stream state machine: it consumes XML tokens of the dump and
//! assembles discrete page records, one per `<page>` element.

use crate::strutil::{has_prefix, spec_has_prefix, str_eq};
use vstd::prelude::*;

verus! {

/// The XML tokens the page stream reads. Anything else in the token stream
/// is irrelevant to page assembly and maps to `Other`.
pub enum XmlEvent {
    StartElement { name: String },
    Characters { data: String },
    EndElement { name: String },
    Other,
}

/// The currently open leaf element the stream routes character data to.
#[derive(Clone, Copy, PartialEq, Eq, Structural, Debug)]
pub enum ElementType {
    Outside,
    Title,
    Id,
    Timestamp,
    Text,
}

/// A required page field that was absent when its `<page>` element closed;
/// the page is skipped, later pages are unaffected.
#[derive(Clone, Copy, PartialEq, Eq, Structural, Debug)]
pub enum MissingField {
    Title,
    Id,
    RevisionId,
    Timestamp,
}

/// One page record of the dump, immutable after creation.
pub struct Page {
    pub id: String,
    pub title: String,
    pub raw_content: String,
    pub revision_id: String,
    pub timestamp: String,
    pub meta: bool,
}

/// Mathematical model of a `Page`.
#[verifier::ext_equal]
pub struct PageView {
    pub id: Seq<char>,
    pub title: Seq<char>,
    pub raw_content: Seq<char>,
    pub revision_id: Seq<char>,
    pub timestamp: Seq<char>,
    pub meta: bool,
}

impl View for Page {
    type V = PageView;

    open spec fn view(&self) -> PageView {
        PageView {
            id: self.id@,
            title: self.title@,
            raw_content: self.raw_content@,
            revision_id: self.revision_id@,
            timestamp: self.timestamp@,
            meta: self.meta,
        }
    }
}

/// A title in one of these administrative namespaces marks a meta page.
pub open spec fn spec_is_meta_title(title: Seq<char>) -> bool {
    spec_has_prefix(title, "Wikipedia:"@) || spec_has_prefix(title, "MediaWiki:"@)
}

/// Whether a title belongs to an administrative namespace.
pub fn is_meta_title(title: &str) -> (r: bool)
    ensures
        r == spec_is_meta_title(title@),
{
    has_prefix(title, "Wikipedia:") || has_prefix(title, "MediaWiki:")
}

/// The tokenizer state between two pulls: the field buffers accumulated for
/// the page being assembled, and where character data currently routes.
pub struct PageStream {
    pub id: Option<String>,
    pub title: Option<String>,
    pub content: Option<String>,
    pub revision_id: Option<String>,
    pub timestamp: Option<String>,
    pub in_revision: bool,
    pub tag: ElementType,
}

/// Mathematical model of a `PageStream`.
#[verifier::ext_equal]
pub struct StreamView {
    pub id: Option<Seq<char>>,
    pub title: Option<Seq<char>>,
    pub content: Option<Seq<char>>,
    pub revision_id: Option<Seq<char>>,
    pub timestamp: Option<Seq<char>>,
    pub in_revision: bool,
    pub tag: ElementType,
}

impl View for PageStream {
    type V = StreamView;

    open spec fn view(&self) -> StreamView {
        StreamView {
            id: match &self.id {
                Some(s) => Some(s@),
                None => None,
            },
            title: match &self.title {
                Some(s) => Some(s@),
                None => None,
            },
            content: match &self.content {
                Some(s) => Some(s@),
                None => None,
            },
            revision_id: match &self.revision_id {
                Some(s) => Some(s@),
                None => None,
            },
            timestamp: match &self.timestamp {
                Some(s) => Some(s@),
                None => None,
            },
            in_revision: self.in_revision,
            tag: self.tag,
        }
    }
}

/// The fresh stream state: no buffered fields, outside any leaf element.
pub open spec fn spec_initial_stream() -> StreamView {
    StreamView {
        id: None,
        title: None,
        content: None,
        revision_id: None,
        timestamp: None,
        in_revision: false,
        tag: ElementType::Outside,
    }
}

/// What closing a `<page>` element yields from the buffered fields: the
/// assembled page, or the first required field found missing. Absent raw
/// text is an empty string, not an error.
pub open spec fn spec_close_page(s: StreamView) -> Result<PageView, MissingField> {
    if s.title is None {
        Err(MissingField::Title)
    } else if s.id is None {
        Err(MissingField::Id)
    } else if s.revision_id is None {
        Err(MissingField::RevisionId)
    } else if s.timestamp is None {
        Err(MissingField::Timestamp)
    } else {
        Ok(
            PageView {
                id: s.id.unwrap(),
                title: s.title.unwrap(),
                raw_content: match s.content {
                    Some(c) => c,
                    None => Seq::empty(),
                },
                revision_id: s.revision_id.unwrap(),
                timestamp: s.timestamp.unwrap(),
                meta: spec_is_meta_title(s.title.unwrap()),
            },
        )
    }
}

/// One transition of the page-stream state machine: the new state, and the
/// page (or per-page fault) that a closing `<page>` element yields.
pub open spec fn spec_step(s: StreamView, ev: XmlEvent) -> (
    StreamView,
    Option<Result<PageView, MissingField>>,
) {
    match ev {
        XmlEvent::StartElement { name } => {
            if name@ == "revision"@ {
                (StreamView { in_revision: true, ..s }, None)
            } else if name@ == "title"@ {
                (StreamView { tag: ElementType::Title, ..s }, None)
            } else if name@ == "id"@ {
                (StreamView { tag: ElementType::Id, ..s }, None)
            } else if name@ == "text"@ {
                (StreamView { tag: ElementType::Text, ..s }, None)
            } else if name@ == "timestamp"@ {
                (StreamView { tag: ElementType::Timestamp, ..s }, None)
            } else {
                (StreamView { tag: ElementType::Outside, ..s }, None)
            }
        },
        XmlEvent::Characters { data } => {
            match s.tag {
                ElementType::Outside => (s, None),
                ElementType::Title => (StreamView { title: Some(data@), ..s }, None),
                ElementType::Id => {
                    if s.in_revision {
                        (StreamView { revision_id: Some(data@), ..s }, None)
                    } else {
                        (StreamView { id: Some(data@), ..s }, None)
                    }
                },
                ElementType::Timestamp => (StreamView { timestamp: Some(data@), ..s }, None),
                ElementType::Text => (StreamView { content: Some(data@), ..s }, None),
            }
        },
        XmlEvent::EndElement { name } => {
            if name@ == "page"@ {
                (
                    StreamView {
                        id: None,
                        title: None,
                        content: None,
                        revision_id: None,
                        timestamp: None,
                        ..s
                    },
                    Some(spec_close_page(s)),
                )
            } else if name@ == "revision"@ {
                (StreamView { in_revision: false, ..s }, None)
            } else {
                (StreamView { tag: ElementType::Outside, ..s }, None)
            }
        },
        XmlEvent::Other => (s, None),
    }
}

/// Law: every page the stream yields carries the meta flag of its title —
/// a title in an administrative namespace is flagged, whatever downstream
/// code does with the page.
pub proof fn lemma_meta_flag(s: StreamView, ev: XmlEvent)
    ensures
        match spec_step(s, ev).1 {
            Some(Ok(p)) => p.meta == spec_is_meta_title(p.title),
            _ => true,
        },
{
}

impl PageStream {
    /// A stream with nothing buffered yet.
    pub fn new() -> (r: PageStream)
        ensures
            r@ == spec_initial_stream(),
    {
        PageStream {
            id: None,
            title: None,
            content: None,
            revision_id: None,
            timestamp: None,
            in_revision: false,
            tag: ElementType::Outside,
        }
    }

    /// Feeds one XML token to the state machine. A closing `<page>` yields
    /// the assembled page, or the first required field found missing — a
    /// per-page fault after which the buffers are clear and later pages
    /// assemble normally.
    pub fn step(&mut self, event: &XmlEvent) -> (r: Option<Result<Page, MissingField>>)
        ensures
            final(self)@ == spec_step(old(self)@, *event).0,
            match (r, spec_step(old(self)@, *event).1) {
                (None, None) => true,
                (Some(Ok(p)), Some(Ok(pv))) => p@ == pv,
                (Some(Err(e)), Some(Err(f))) => e == f,
                _ => false,
            },
    {
        match event {
            XmlEvent::StartElement { name } => {
                if str_eq(name.as_str(), "revision") {
                    self.in_revision = true;
                } else if str_eq(name.as_str(), "title") {
                    self.tag = ElementType::Title;
                } else if str_eq(name.as_str(), "id") {
                    self.tag = ElementType::Id;
                } else if str_eq(name.as_str(), "text") {
                    self.tag = ElementType::Text;
                } else if str_eq(name.as_str(), "timestamp") {
                    self.tag = ElementType::Timestamp;
                } else {
                    self.tag = ElementType::Outside;
                }
                None
            },
            XmlEvent::Characters { data } => {
                match self.tag {
                    ElementType::Outside => {},
                    ElementType::Title => {
                        self.title = Some(data.clone());
                    },
                    ElementType::Id => {
                        if self.in_revision {
                            self.revision_id = Some(data.clone());
                        } else {
                            self.id = Some(data.clone());
                        }
                    },
                    ElementType::Timestamp => {
                        self.timestamp = Some(data.clone());
                    },
                    ElementType::Text => {
                        self.content = Some(data.clone());
                    },
                }
                None
            },
            XmlEvent::EndElement { name } => {
                if str_eq(name.as_str(), "page") {
                    let title_opt = self.title.take();
                    let id_opt = self.id.take();
                    let content_opt = self.content.take();
                    let revision_opt = self.revision_id.take();
                    let timestamp_opt = self.timestamp.take();
                    match (title_opt, id_opt, revision_opt, timestamp_opt) {
                        (Some(title), Some(id), Some(revision_id), Some(timestamp)) => {
                            let meta = is_meta_title(title.as_str());
                            let raw_content = match content_opt {
                                Some(c) => c,
                                None => String::new(),
                            };
                            Some(
                                Ok(Page { id, title, raw_content, revision_id, timestamp, meta }),
                            )
                        },
                        (None, _, _, _) => Some(Err(MissingField::Title)),
                        (_, None, _, _) => Some(Err(MissingField::Id)),
                        (_, _, None, _) => Some(Err(MissingField::RevisionId)),
                        (_, _, _, None) => Some(Err(MissingField::Timestamp)),
                    }
                } else if str_eq(name.as_str(), "revision") {
                    self.in_revision = false;
                    None
                } else {
                    self.tag = ElementType::Outside;
                    None
                }
            },
            XmlEvent::Other => None,
        }
    }
}

} // verus!
