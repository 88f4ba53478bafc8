//! The library's own model of the parsed markup node tree.
//!
//! The outside markup parser produces a borrowed tree; the values that this
//! library's logic reads are held here as plain owned data, so that every
//! walk over the tree can be verified.

use vstd::prelude::*;

verus! {

/// One node of the parsed markup tree. The set of kinds is closed; anything
/// the logic does not read maps to `Other`.
pub enum Node {
    Text { value: String },
    CharacterEntity { character: char },
    Heading { nodes: Vec<Node> },
    Category { target: String },
    Link { target: String, text: Vec<Node> },
    ExternalLink { nodes: Vec<Node> },
    Image { target: String, text: Vec<Node> },
    UnorderedList { items: Vec<ListItem> },
    OrderedList { items: Vec<ListItem> },
    DefinitionList { items: Vec<DefinitionListItem> },
    Template { name: Vec<Node>, parameters: Vec<Parameter> },
    Redirect { target: String },
    ParagraphBreak,
    Bold,
    Italic,
    BoldItalic,
    Comment,
    StartTag,
    EndTag,
    Other,
}

/// List item of an ordered or unordered list.
pub struct ListItem {
    pub nodes: Vec<Node>,
}

/// Identifier for the type of a definition list item.
#[derive(Clone, Copy, PartialEq, Eq, Structural, Debug)]
pub enum DefinitionListItemType {
    Details,
    Term,
}

/// List item of a definition list.
pub struct DefinitionListItem {
    pub type_: DefinitionListItemType,
    pub nodes: Vec<Node>,
}

/// Template parameter: only its value is read by the logic.
pub struct Parameter {
    pub value: Vec<Node>,
}

} // verus!
