pub mod common_parser;
pub mod document_builder;
pub mod list_parser;
pub mod model;
pub mod nodes;
pub mod template_parser;
