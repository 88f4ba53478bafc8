//! Verified core of a wiki-dump extractor: a page-stream state machine over
//! XML tokens, a document builder over a parsed markup node tree, list
//! rendering, template resolution, and the JSON-lines output shape.

pub mod output_json;
pub mod page_stream;
pub mod parser;
pub mod strutil;
