//! Builds an in-memory text document (paragraphs, tables, images, styles) and
//! turns it into one flat OpenDocument XML file, by splicing generated XML
//! events into a skeleton document at its marker comments.

pub mod strings;
pub mod decimal;
pub mod xml_event;
pub mod fodt_xml_write;
pub mod text;
pub mod paragraph;
pub mod container;
pub mod table;
pub mod image;
pub mod style;
pub mod stylesheet;
pub mod yaml;
pub mod stylesheet_parser;
pub mod skeleton;
pub mod render;
pub mod document;
pub mod prelude;
