use flat_odt::fodt_xml_write::FlatOdtXmlWrite;
use flat_odt::style::{
    Style, StyleFamily, StyleItem, StyleProperties, StylePropertyGroup, TabStop,
};
use flat_odt::stylesheet::Stylesheet;
use flat_odt::xml_event::{Attribute, Event};

fn attr(name: &str, value: &str) -> Attribute {
    Attribute { name: name.to_string(), value: value.to_string() }
}

fn start(name: &str, attributes: Vec<Attribute>) -> Event {
    Event::StartElement { name: name.to_string(), attributes }
}

fn events_of<T: FlatOdtXmlWrite>(part: &T) -> Vec<Event> {
    let mut out = Vec::new();
    part.write_flat_odt_xml(&mut out);
    out
}

#[test]
fn family_names_round_trip() {
    let all = [
        (StyleFamily::Paragraph, "paragraph"),
        (StyleFamily::Text, "text"),
        (StyleFamily::Table, "table"),
        (StyleFamily::TableColumn, "table-column"),
        (StyleFamily::TableRow, "table-row"),
        (StyleFamily::TableCell, "table-cell"),
    ];
    for (family, name) in all {
        assert_eq!(family.as_str(), name);
        assert_eq!(StyleFamily::from_name(name), Some(family));
    }
    assert_eq!(StyleFamily::from_name("graphic"), None);
    assert_eq!(StyleFamily::from_name("Paragraph"), None);
    assert_eq!(StyleFamily::from_name("table-"), None);
    assert_eq!(StyleFamily::from_name(""), None);
}

#[test]
fn property_groups_in_canonical_order() {
    let names: Vec<&str> = StylePropertyGroup::all().iter().map(|g| g.as_str()).collect();
    assert_eq!(
        names,
        vec![
            "paragraph-properties",
            "text-properties",
            "table-properties",
            "table-column-properties",
            "table-row-properties",
            "table-cell-properties",
        ]
    );
}

#[test]
fn style_item_set_overwrites_in_place() {
    let mut item = StyleItem::default();
    assert!(item.attributes().is_empty());
    assert_eq!(item.get("a"), None);
    item.set("a", "1");
    item.set("b", "2");
    item.set("a", "3");
    item.set("c", "4");
    assert_eq!(item.attributes(), vec![attr("a", "3"), attr("b", "2"), attr("c", "4")]);
    assert_eq!(item.get("a"), Some("3"));
    assert_eq!(item.get("b"), Some("2"));
    assert_eq!(item.get("d"), None);
    assert_eq!(item.tab_stop_count(), 0);
}

#[test]
fn style_item_keeps_tab_stops_in_order() {
    let mut item = StyleItem::default();
    item.add_tab_stop(TabStop { position: "1cm".to_string(), type_: None });
    item.add_tab_stop(TabStop { position: "2cm".to_string(), type_: Some("right".to_string()) });
    item.set("k", "v");
    assert_eq!(item.tab_stop_count(), 2);
    assert_eq!(item.tab_stop(0), &TabStop { position: "1cm".to_string(), type_: None });
    assert_eq!(item.tab_stop(1).type_.as_deref(), Some("right"));
    assert_eq!(item.attributes(), vec![attr("k", "v")]);
}

#[test]
fn style_properties_insert_and_get() {
    let mut properties = StyleProperties::new();
    for group in StylePropertyGroup::all() {
        assert!(properties.get(group).is_none());
    }
    let mut item = StyleItem::default();
    item.set("x", "1");
    assert!(properties.insert(StylePropertyGroup::TextProperties, item).is_none());
    let mut other = StyleItem::default();
    other.set("y", "2");
    let previous = properties.insert(StylePropertyGroup::TextProperties, other).unwrap();
    assert_eq!(previous.get("x"), Some("1"));
    assert_eq!(properties.get(StylePropertyGroup::TextProperties).unwrap().get("y"), Some("2"));
    assert!(properties.get(StylePropertyGroup::ParagraphProperties).is_none());
}

#[test]
fn new_style_has_nothing_set() {
    let style = Style::new("Title".to_string(), StyleFamily::Paragraph);
    assert_eq!(style.name(), "Title");
    assert_eq!(style.family, StyleFamily::Paragraph);
    assert!(!style.automatic);
    assert!(!style.is_automatic());
    assert!(style.parent_style_name.is_none());
    assert!(style.next_style_name.is_none());
    assert!(style.display_name.is_none());
    assert!(style.class.is_none());
    assert!(style.default_outline_level.is_none());
    assert_eq!(
        events_of(&style),
        vec![
            start("style:style", vec![attr("style:name", "Title"), attr("style:family", "paragraph")]),
            Event::EndElement,
        ]
    );
}

#[test]
fn style_writes_attributes_and_groups_in_fixed_order() {
    let mut style = Style::new("H1".to_string(), StyleFamily::TableCell);
    style.class = Some("text".to_string());
    style.next_style_name = Some("Body".to_string());
    style.display_name = Some("Heading 1".to_string());
    style.parent_style_name = Some("Heading".to_string());
    style.default_outline_level = Some(255);
    let mut cell = StyleItem::default();
    cell.set("fo:padding", "1cm");
    let mut text = StyleItem::default();
    text.set("fo:font-weight", "bold");
    text.set("fo:font-size", "12pt");
    let mut paragraph = StyleItem::default();
    paragraph.add_tab_stop(TabStop { position: "3cm".to_string(), type_: None });
    // Inserted against the canonical order.
    style.properties.insert(StylePropertyGroup::TableCellProperties, cell);
    style.properties.insert(StylePropertyGroup::TextProperties, text);
    style.properties.insert(StylePropertyGroup::ParagraphProperties, paragraph);
    assert_eq!(
        events_of(&style),
        vec![
            start(
                "style:style",
                vec![
                    attr("style:name", "H1"),
                    attr("style:family", "table-cell"),
                    attr("style:parent-style-name", "Heading"),
                    attr("style:display-name", "Heading 1"),
                    attr("style:next-style-name", "Body"),
                    attr("style:class", "text"),
                    attr("style:default-outline-level", "255"),
                ]
            ),
            start("style:paragraph-properties", vec![]),
            Event::EndElement,
            start(
                "style:text-properties",
                vec![attr("fo:font-weight", "bold"), attr("fo:font-size", "12pt")]
            ),
            Event::EndElement,
            start("style:table-cell-properties", vec![attr("fo:padding", "1cm")]),
            Event::EndElement,
            Event::EndElement,
        ]
    );
}

fn style(name: &str, family: StyleFamily, automatic: bool) -> Style {
    let mut s = Style::new(name.to_string(), family);
    s.automatic = automatic;
    s
}

fn names(sheet: &Stylesheet) -> Vec<String> {
    (0..sheet.len()).map(|i| sheet.style_at(i).name().to_string()).collect()
}

#[test]
fn add_style_overrides_same_name() {
    let mut sheet = Stylesheet::new();
    assert_eq!(sheet.len(), 0);
    sheet.add_style(style("A", StyleFamily::Paragraph, false));
    sheet.add_style(style("B", StyleFamily::Text, false));
    sheet.add_style(style("A", StyleFamily::Table, true));
    assert_eq!(sheet.len(), 2);
    assert_eq!(names(&sheet), vec!["A", "B"]);
    assert_eq!(sheet.get("A").unwrap().family, StyleFamily::Table);
    assert!(sheet.get("A").unwrap().automatic);
    assert_eq!(sheet.get("B").unwrap().family, StyleFamily::Text);
    assert!(sheet.get("C").is_none());
}

#[test]
fn extend_takes_incoming_definition_and_keeps_the_others() {
    let mut base = Stylesheet::new();
    base.add_style(style("Standard", StyleFamily::Paragraph, false));
    base.add_style(style("Shared", StyleFamily::Paragraph, false));
    base.add_style(style("OnlyBase", StyleFamily::Text, false));
    let mut incoming = Stylesheet::new();
    incoming.add_style(style("OnlyIncoming", StyleFamily::Table, true));
    incoming.add_style(style("Shared", StyleFamily::TableCell, true));
    base.extend(incoming);
    assert_eq!(base.len(), 4);
    assert_eq!(names(&base), vec!["Standard", "Shared", "OnlyBase", "OnlyIncoming"]);
    let shared = base.get("Shared").unwrap();
    assert_eq!(shared.family, StyleFamily::TableCell);
    assert!(shared.automatic);
    assert_eq!(base.get("Standard").unwrap().family, StyleFamily::Paragraph);
    assert_eq!(base.get("OnlyBase").unwrap().family, StyleFamily::Text);
    assert_eq!(base.get("OnlyIncoming").unwrap().family, StyleFamily::Table);
}

#[test]
fn extend_with_empty_sheet_changes_nothing() {
    let mut base = Stylesheet::new();
    base.add_style(style("A", StyleFamily::Paragraph, false));
    base.extend(Stylesheet::new());
    assert_eq!(names(&base), vec!["A"]);
    let mut empty = Stylesheet::new();
    empty.extend(base);
    assert_eq!(names(&empty), vec!["A"]);
}

fn style_names_in(events: &[Event]) -> Vec<String> {
    events
        .iter()
        .filter_map(|e| match e {
            Event::StartElement { name, attributes } if name == "style:style" => {
                Some(attributes[0].value.clone())
            }
            _ => None,
        })
        .collect()
}

#[test]
fn named_and_automatic_styles_are_written_apart() {
    let mut sheet = Stylesheet::new();
    sheet.add_style(style("N1", StyleFamily::Paragraph, false));
    sheet.add_style(style("A1", StyleFamily::TableCell, true));
    sheet.add_style(style("N2", StyleFamily::Text, false));
    sheet.add_style(style("A2", StyleFamily::Table, true));
    let mut named = Vec::new();
    sheet.write_styles(&mut named);
    let mut automatic = Vec::new();
    sheet.write_automatic_styles(&mut automatic);
    assert_eq!(style_names_in(&named), vec!["N1", "N2"]);
    assert_eq!(style_names_in(&automatic), vec!["A1", "A2"]);
    assert_eq!(named.len(), 4);
    assert_eq!(automatic.len(), 4);
}

#[test]
fn default_stylesheet_loads() {
    let sheet = Stylesheet::load_default().unwrap();
    assert_eq!(
        names(&sheet),
        vec!["Standard", "Heading", "Text_20_body", "Heading_20_1", "Table_20_Contents"]
    );
    let h1 = sheet.get("Heading_20_1").unwrap();
    assert_eq!(h1.default_outline_level, Some(1));
    assert_eq!(h1.display_name.as_deref(), Some("Heading 1"));
    assert_eq!(h1.parent_style_name.as_deref(), Some("Heading"));
    assert_eq!(h1.next_style_name.as_deref(), Some("Text_20_body"));
    assert_eq!(h1.class.as_deref(), Some("text"));
    assert!(!h1.automatic);
    let text = h1.properties.get(StylePropertyGroup::TextProperties).unwrap();
    assert_eq!(text.get("fo:font-size"), Some("18pt"));
    let standard = sheet.get("Standard").unwrap();
    let par = standard.properties.get(StylePropertyGroup::ParagraphProperties).unwrap();
    assert_eq!(par.get("fo:margin-top"), Some("0cm"));
    assert_eq!(par.get("fo:margin-bottom"), Some("0.25cm"));
}
