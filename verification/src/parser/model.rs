//! The shared data model: documents, text runs, links and images.

use crate::strutil::{ascii_ieq, spec_ascii_ieq, str_eq};
use vstd::prelude::*;

verus! {

/// One structured document, built from a single page's markup source.
pub struct Document {
    pub id: String,
    pub title: String,
    pub timestamp: String,
    pub revision_id: String,
    pub url: String,
    pub contents: Vec<String>,
    pub categories: Vec<String>,
    pub headings: Vec<String>,
    pub images: Vec<Image>,
    pub links: Vec<Text>,
    pub redirect_to: Option<String>,
}

/// A recoverable, page-local fault noted while building a document.
#[derive(Clone, Copy, PartialEq, Eq, Structural, Debug)]
pub enum Warning {
    /// An image target that does not split into a known namespace and a name.
    BadImageTarget,
    /// A template of a known kind invoked without the parameters it needs.
    MissingTemplateParam,
}

/// The namespace kind of a media reference.
#[derive(Clone, Copy, PartialEq, Eq, Structural, Debug)]
pub enum ImageType {
    Image,
    File,
}

/// The namespace kind named by an image target's prefix, if the prefix is a
/// known synonym of "File" or "Image" (ASCII case-insensitive, plus the
/// dump's localized synonyms).
pub open spec fn spec_image_type(s: Seq<char>) -> Option<ImageType> {
    if spec_ascii_ieq(s, "file"@) || s == "ファイル"@ {
        Some(ImageType::File)
    } else if spec_ascii_ieq(s, "image"@) || s == "画像"@ {
        Some(ImageType::Image)
    } else {
        None
    }
}

impl ImageType {
    /// Classifies a namespace prefix as a known image-type synonym.
    pub fn from_str(s: &str) -> (r: Result<ImageType, ()>)
        ensures
            match spec_image_type(s@) {
                Some(t) => r == Ok::<ImageType, ()>(t),
                None => r == Err::<ImageType, ()>(()),
            },
    {
        if ascii_ieq(s, "file") || str_eq(s, "ファイル") {
            Ok(ImageType::File)
        } else if ascii_ieq(s, "image") || str_eq(s, "画像") {
            Ok(ImageType::Image)
        } else {
            Err(())
        }
    }
}

/// A span of prose, either plain or carrying a link target.
pub enum Text {
    LinkText { text: String, link: Link },
    Text { text: String },
}

/// A link target: either to another page of the wiki or to an outside URL.
pub enum Link {
    ExternalLink { link_target: String },
    Link { link_target: String },
}

/// A media reference: file name, namespace kind, and caption text.
pub struct Image {
    pub target: String,
    pub target_type: ImageType,
    pub text: Text,
}

impl Text {
    /// The plain text of this span, without the link target.
    pub fn clone_text(&self) -> (r: String)
        ensures
            r@ == self.spec_text(),
    {
        match self {
            Text::LinkText { text, .. } => text.clone(),
            Text::Text { text } => text.clone(),
        }
    }

    /// The plain text of this span, as a sequence of characters.
    pub open spec fn spec_text(&self) -> Seq<char> {
        match self {
            Text::LinkText { text, .. } => text@,
            Text::Text { text } => text@,
        }
    }
}

/// Mathematical model of a `Link`.
pub enum LinkView {
    ExternalLink { link_target: Seq<char> },
    Link { link_target: Seq<char> },
}

/// Mathematical model of a `Text`.
pub enum TextView {
    LinkText { text: Seq<char>, link: LinkView },
    Text { text: Seq<char> },
}

impl TextView {
    /// The plain text of this span, without the link target.
    pub open spec fn text_part(self) -> Seq<char> {
        match self {
            TextView::LinkText { text, .. } => text,
            TextView::Text { text } => text,
        }
    }
}

/// Mathematical model of an `Image`.
pub struct ImageView {
    pub target: Seq<char>,
    pub target_type: ImageType,
    pub text: TextView,
}

/// Mathematical model of a `Document`.
#[verifier::ext_equal]
pub struct DocumentView {
    pub id: Seq<char>,
    pub title: Seq<char>,
    pub timestamp: Seq<char>,
    pub revision_id: Seq<char>,
    pub url: Seq<char>,
    pub contents: Seq<Seq<char>>,
    pub categories: Seq<Seq<char>>,
    pub headings: Seq<Seq<char>>,
    pub images: Seq<ImageView>,
    pub links: Seq<TextView>,
    pub redirect_to: Option<Seq<char>>,
}

impl View for Link {
    type V = LinkView;

    open spec fn view(&self) -> LinkView {
        match self {
            Link::ExternalLink { link_target } => LinkView::ExternalLink {
                link_target: link_target@,
            },
            Link::Link { link_target } => LinkView::Link { link_target: link_target@ },
        }
    }
}

impl View for Text {
    type V = TextView;

    open spec fn view(&self) -> TextView {
        match self {
            Text::LinkText { text, link } => TextView::LinkText { text: text@, link: link@ },
            Text::Text { text } => TextView::Text { text: text@ },
        }
    }
}

impl View for Image {
    type V = ImageView;

    open spec fn view(&self) -> ImageView {
        ImageView { target: self.target@, target_type: self.target_type, text: self.text@ }
    }
}

impl View for Document {
    type V = DocumentView;

    open spec fn view(&self) -> DocumentView {
        DocumentView {
            id: self.id@,
            title: self.title@,
            timestamp: self.timestamp@,
            revision_id: self.revision_id@,
            url: self.url@,
            contents: self.contents@.map_values(|s: String| s@),
            categories: self.categories@.map_values(|s: String| s@),
            headings: self.headings@.map_values(|s: String| s@),
            images: self.images@.map_values(|i: Image| i@),
            links: self.links@.map_values(|t: Text| t@),
            redirect_to: match &self.redirect_to {
                Some(s) => Some(s@),
                None => None,
            },
        }
    }
}

} // verus!
