use flat_odt::container::{Container, Node};
use flat_odt::decimal::u32_to_string;
use flat_odt::fodt_xml_write::FlatOdtXmlWrite;
use flat_odt::image::{Image, ImageAnchor};
use flat_odt::paragraph::Paragraph;
use flat_odt::strings::{joined, str_eq};
use flat_odt::table::{Table, TableCell, TableColumn, TableRow};
use flat_odt::text::Text;
use flat_odt::xml_event::{Attribute, Event};

fn attr(name: &str, value: &str) -> Attribute {
    Attribute { name: name.to_string(), value: value.to_string() }
}

fn start(name: &str, attributes: Vec<Attribute>) -> Event {
    Event::StartElement { name: name.to_string(), attributes }
}

fn chars(text: &str) -> Event {
    Event::Characters(text.to_string())
}

/// The depth after each event, or none if it ever goes below zero.
fn depths(events: &[Event]) -> Option<Vec<i64>> {
    let mut depth = 0i64;
    let mut all = Vec::new();
    for e in events {
        match e {
            Event::StartElement { .. } => depth += 1,
            Event::EndElement => depth -= 1,
            Event::Characters(_) => {}
        }
        if depth < 0 {
            return None;
        }
        all.push(depth);
    }
    Some(all)
}

fn events_of<T: FlatOdtXmlWrite>(part: &T) -> Vec<Event> {
    let mut out = Vec::new();
    part.write_flat_odt_xml(&mut out);
    out
}

#[test]
fn decimal_text_of_numbers() {
    assert_eq!(u32_to_string(0), "0");
    assert_eq!(u32_to_string(7), "7");
    assert_eq!(u32_to_string(10), "10");
    assert_eq!(u32_to_string(255), "255");
    assert_eq!(u32_to_string(1234567890), "1234567890");
    assert_eq!(u32_to_string(u32::MAX), "4294967295");
}

#[test]
fn strings_compare_by_characters() {
    assert!(str_eq("", ""));
    assert!(str_eq("table-cell", "table-cell"));
    assert!(!str_eq("table-cell", "table-cel"));
    assert!(!str_eq("table-cell", "table-celL"));
    assert!(str_eq("h\u{e9}llo", "h\u{e9}llo"));
    assert!(!str_eq("h\u{e9}llo", "hello"));
    assert_eq!(joined("style:", "text-properties"), "style:text-properties");
}

#[test]
fn text_is_one_characters_event() {
    let text = Text { text: "a < b".to_string() };
    assert_eq!(events_of(&text), vec![chars("a < b")]);
    assert!(text.optional_string_attributes().is_empty());
}

#[test]
fn paragraph_without_style_has_no_attribute() {
    let mut par = Paragraph::new();
    par.content.add(Node::Text(Text { text: "x".to_string() }));
    assert_eq!(events_of(&par), vec![start("text:p", vec![]), chars("x"), Event::EndElement]);
    assert_eq!(par.optional_string_attributes(), vec![("text:style_name", None)]);
}

#[test]
fn paragraph_from_text_and_style() {
    let par = Paragraph::from_text_and_style("Hello", "Standard");
    assert_eq!(par.style_name.as_deref(), Some("Standard"));
    assert_eq!(par.content.len(), 1);
    assert_eq!(
        events_of(&par),
        vec![
            start("text:p", vec![attr("text:style_name", "Standard")]),
            chars("Hello"),
            Event::EndElement,
        ]
    );
}

#[test]
fn optional_attributes_keep_their_order_and_skip_absent_ones() {
    let mut cell = TableCell::new();
    cell.value_type = Some("string".to_string());
    let mut attributes = vec![attr("first", "1")];
    cell.add_optional_string_attributes(&mut attributes);
    assert_eq!(attributes, vec![attr("first", "1"), attr("office:value-type", "string")]);

    cell.style_name = Some("C".to_string());
    let mut attributes = Vec::new();
    cell.add_optional_string_attributes(&mut attributes);
    assert_eq!(attributes, vec![attr("table:style-name", "C"), attr("office:value-type", "string")]);
    assert_eq!(
        cell.optional_string_attributes(),
        vec![("table:style-name", Some("C")), ("office:value-type", Some("string"))]
    );
}

#[test]
fn container_starts_empty_and_counts_children() {
    let mut c = Container::new();
    assert_eq!(c.len(), 0);
    assert!(events_of(&c).is_empty());
    c.add(Node::Text(Text { text: "a".to_string() }));
    c.add(Node::Paragraph(Paragraph::new()));
    assert_eq!(c.len(), 2);
}

#[test]
fn container_emits_children_in_append_order_without_wrapper() {
    let mut c = Container::new();
    c.add(Node::Paragraph(Paragraph::from_text_and_style("one", "A")));
    c.add(Node::Text(Text { text: "two".to_string() }));
    c.add(Node::Paragraph(Paragraph::from_text_and_style("three", "B")));
    let events = events_of(&c);
    assert_eq!(
        events,
        vec![
            start("text:p", vec![attr("text:style_name", "A")]),
            chars("one"),
            Event::EndElement,
            chars("two"),
            start("text:p", vec![attr("text:style_name", "B")]),
            chars("three"),
            Event::EndElement,
        ]
    );
    let d = depths(&events).unwrap();
    assert_eq!(d, vec![1, 1, 0, 0, 1, 1, 0]);
}

#[test]
fn nested_containers_return_to_depth_zero() {
    let mut inner = Paragraph::new();
    inner.content.add(Node::Paragraph(Paragraph::from_text_and_style("deep", "S")));
    let mut cell = TableCell::new();
    cell.content.add(Node::Paragraph(inner));
    let mut row = TableRow::new();
    row.add_cell(cell);
    let mut table = Table::new("T");
    table.add_row(row);
    let mut c = Container::new();
    c.add(Node::Table(table));
    c.add(Node::Text(Text { text: "after".to_string() }));
    let events = events_of(&c);
    let d = depths(&events).unwrap();
    assert_eq!(*d.last().unwrap(), 0);
    assert_eq!(*d.iter().max().unwrap(), 5);
    assert_eq!(events.last().unwrap(), &chars("after"));
}

#[test]
fn table_column_attributes() {
    let mut col = TableColumn::new();
    assert_eq!(events_of(&col), vec![start("table:table-column", vec![]), Event::EndElement]);
    col.number_columns_repeated = Some(12);
    col.default_cell_style_name = Some("D".to_string());
    col.style_name = Some("S".to_string());
    assert_eq!(
        events_of(&col),
        vec![
            start(
                "table:table-column",
                vec![
                    attr("table:style-name", "S"),
                    attr("table:default-cell-style-name", "D"),
                    attr("table:number-columns-repeated", "12"),
                ]
            ),
            Event::EndElement,
        ]
    );
}

#[test]
fn table_writes_name_columns_then_rows() {
    let mut table = Table::new("Prices");
    table.style_name = Some("TS".to_string());
    table.add_column(TableColumn::new());
    table.add_column(TableColumn::new());
    let mut row = TableRow::new();
    row.number_rows_repeated = Some(3);
    let mut a = TableCell::new();
    a.content.add(Node::Text(Text { text: "a".to_string() }));
    row.add_cell(a);
    row.add_cell(TableCell::new());
    table.add_row(row);
    assert_eq!(table.columns.len(), 2);
    assert_eq!(table.rows.len(), 1);
    assert_eq!(table.rows[0].cells.len(), 2);
    assert_eq!(
        events_of(&table),
        vec![
            start("table:table", vec![attr("table:name", "Prices"), attr("table:style-name", "TS")]),
            start("table:table-column", vec![]),
            Event::EndElement,
            start("table:table-column", vec![]),
            Event::EndElement,
            start("table:table-row", vec![attr("table:number-rows-repeated", "3")]),
            start("table:table-cell", vec![]),
            chars("a"),
            Event::EndElement,
            start("table:table-cell", vec![]),
            Event::EndElement,
            Event::EndElement,
            Event::EndElement,
        ]
    );
}

#[test]
fn image_anchor_names() {
    assert_eq!(ImageAnchor::AsChar.as_str(), "as-char");
    assert_eq!(ImageAnchor::Paragraph.as_str(), "paragraph");
    assert_eq!(ImageAnchor::Page.as_str(), "page");
    assert_eq!(ImageAnchor::from_name("as-char"), Some(ImageAnchor::AsChar));
    assert_eq!(ImageAnchor::from_name("paragraph"), Some(ImageAnchor::Paragraph));
    assert_eq!(ImageAnchor::from_name("page"), Some(ImageAnchor::Page));
    assert_eq!(ImageAnchor::from_name("Page"), None);
    assert_eq!(ImageAnchor::from_name(""), None);
}

fn image(extension: Option<&str>) -> Image {
    Image::new(
        extension.map(|e| e.to_string()),
        "2.5".to_string(),
        "10".to_string(),
        ImageAnchor::AsChar,
        b"hello".to_vec(),
    )
}

#[test]
fn image_mime_type_by_extension() {
    assert_eq!(image(Some("png")).mime_type(), "image/png");
    assert_eq!(image(Some("jpg")).mime_type(), "image/jpeg");
    assert_eq!(image(Some("jpeg")).mime_type(), "image/jpeg");
    assert_eq!(image(Some("svg")).mime_type(), "image/svg+xml");
    assert_eq!(image(Some("gif")).mime_type(), "application/octet-stream");
    assert_eq!(image(Some("PNG")).mime_type(), "application/octet-stream");
    assert_eq!(image(Some("")).mime_type(), "application/octet-stream");
    assert_eq!(image(None).mime_type(), "application/octet-stream");
}

#[test]
fn image_is_a_frame_with_base64_payload() {
    let events = events_of(&image(Some("png")));
    assert_eq!(
        events,
        vec![
            start(
                "draw:frame",
                vec![
                    attr("text:anchor-type", "as-char"),
                    attr("svg:width", "2.5cm"),
                    attr("svg:height", "10cm"),
                ]
            ),
            start("draw:image", vec![attr("draw:mime-type", "image/png")]),
            start("office:binary-data", vec![]),
            chars("aGVsbG8="),
            Event::EndElement,
            Event::EndElement,
            Event::EndElement,
        ]
    );
    assert_eq!(depths(&events).unwrap(), vec![1, 2, 3, 3, 2, 1, 0]);
}

#[test]
fn image_payload_of_no_bytes_is_empty() {
    let img = Image::new(None, "1".to_string(), "1".to_string(), ImageAnchor::Page, Vec::new());
    let events = events_of(&img);
    assert_eq!(events[3], chars(""));
    assert_eq!(events[0], start(
        "draw:frame",
        vec![attr("text:anchor-type", "page"), attr("svg:width", "1cm"), attr("svg:height", "1cm")]
    ));
}
