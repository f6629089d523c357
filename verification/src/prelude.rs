//! The names that a user of the library needs most.

pub use crate::container::{Container, Node};
pub use crate::document::Document;
pub use crate::fodt_xml_write::FlatOdtXmlWrite;
pub use crate::image::{Image, ImageAnchor};
pub use crate::paragraph::Paragraph;
pub use crate::style::{Style, StyleFamily, StyleItem, StylePropertyGroup, TabStop};
pub use crate::stylesheet::Stylesheet;
pub use crate::stylesheet_parser::StylesheetParser;
pub use crate::table::{Table, TableCell, TableColumn, TableRow};
pub use crate::text::Text;
pub use crate::xml_event::{Attribute, Event};
