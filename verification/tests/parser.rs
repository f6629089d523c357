use flat_odt::style::{StyleFamily, StylePropertyGroup, TabStop};
use flat_odt::stylesheet::Stylesheet;
use flat_odt::stylesheet_parser::{DeclarationError, LoadError, StylesheetParser};
use flat_odt::xml_event::{Attribute, Event};
use flat_odt::yaml::{get, get_str, parse_sequence, YamlValue};

fn attr(name: &str, value: &str) -> Attribute {
    Attribute { name: name.to_string(), value: value.to_string() }
}

fn s(text: &str) -> YamlValue {
    YamlValue::String(text.to_string())
}

fn map(entries: Vec<(&str, YamlValue)>) -> YamlValue {
    YamlValue::Mapping(entries.into_iter().map(|(k, v)| (s(k), v)).collect())
}

fn names(sheet: &Stylesheet) -> Vec<String> {
    (0..sheet.len()).map(|i| sheet.style_at(i).name().to_string()).collect()
}

fn style_names_in(events: &[Event]) -> Vec<String> {
    events
        .iter()
        .filter_map(|e| match e {
            Event::StartElement { name, attributes } if name == "style:style" => {
                Some(attributes[0].value.clone())
            }
            _ => None,
        })
        .collect()
}

fn views(sheet: &Stylesheet) -> (Vec<String>, Vec<String>) {
    let mut named = Vec::new();
    sheet.write_styles(&mut named);
    let mut automatic = Vec::new();
    sheet.write_automatic_styles(&mut automatic);
    (style_names_in(&named), style_names_in(&automatic))
}

fn declaration_error(yaml: &str) -> (usize, DeclarationError) {
    match StylesheetParser::parse_yaml(yaml) {
        Err(LoadError::Declaration(index, error)) => (index, error),
        Err(other) => panic!("unexpected error {:?}", other),
        Ok(_) => panic!("loaded"),
    }
}

// ---------------------------------------------------------------------------
// Reading YAML into plain data
// ---------------------------------------------------------------------------

#[test]
fn yaml_text_becomes_plain_values() {
    let values = parse_sequence("- a\n- 12\n- -3\n- 1.5\n- true\n- ~\n- [x, 1]\n- {k: v}\n- !t z\n")
        .unwrap();
    assert_eq!(
        values,
        vec![
            s("a"),
            YamlValue::Number { text: "12".to_string(), unsigned: Some(12) },
            YamlValue::Number { text: "-3".to_string(), unsigned: None },
            YamlValue::Number { text: "1.5".to_string(), unsigned: None },
            YamlValue::Bool(true),
            YamlValue::Null,
            YamlValue::Sequence(vec![
                s("x"),
                YamlValue::Number { text: "1".to_string(), unsigned: Some(1) },
            ]),
            map(vec![("k", s("v"))]),
            YamlValue::Tagged(Box::new(s("z"))),
        ]
    );
}

#[test]
fn yaml_mapping_keeps_the_order_of_the_text() {
    let values = parse_sequence("- {z: 1, a: 2, m: 3}\n").unwrap();
    let entries = values[0].as_mapping().unwrap();
    let keys: Vec<&str> = entries.iter().map(|(k, _)| k.as_str().unwrap()).collect();
    assert_eq!(keys, vec!["z", "a", "m"]);
}

#[test]
fn yaml_that_is_no_sequence_is_refused() {
    assert!(parse_sequence("a: b\n").is_err());
    assert!(parse_sequence("- [unclosed\n").is_err());
    assert!(!parse_sequence("a: b\n").unwrap_err().is_empty());
    assert_eq!(parse_sequence("[]").unwrap(), vec![]);
}

#[test]
fn yaml_accessors_look_under_tags() {
    let tagged = YamlValue::Tagged(Box::new(YamlValue::Tagged(Box::new(s("x")))));
    assert_eq!(tagged.as_str(), Some("x"));
    assert_eq!(tagged.untag(), &s("x"));
    assert!(tagged.as_mapping().is_none());
    assert_eq!(tagged.as_u64(), None);
    let number = YamlValue::Tagged(Box::new(YamlValue::Number {
        text: "7".to_string(),
        unsigned: Some(7),
    }));
    assert_eq!(number.as_u64(), Some(7));
    assert_eq!(number.as_str(), None);
    let mapping = YamlValue::Tagged(Box::new(map(vec![("a", s("b"))])));
    assert_eq!(mapping.as_mapping().unwrap().len(), 1);
    assert_eq!(YamlValue::Null.as_str(), None);
    assert_eq!(YamlValue::Bool(true).as_u64(), None);
}

#[test]
fn yaml_get_finds_the_first_string_key() {
    let entries = vec![
        (YamlValue::Bool(true), s("bool key")),
        (YamlValue::Tagged(Box::new(s("k"))), s("tagged key")),
        (s("k"), s("first")),
        (s("k"), s("second")),
        (s("n"), YamlValue::Null),
    ];
    assert_eq!(get(&entries, "k"), Some(&s("first")));
    assert_eq!(get_str(&entries, "k"), Some("first"));
    assert_eq!(get(&entries, "n"), Some(&YamlValue::Null));
    assert_eq!(get_str(&entries, "n"), None);
    assert_eq!(get(&entries, "true"), None);
    assert_eq!(get(&entries, "missing"), None);
}

// ---------------------------------------------------------------------------
// Loading
// ---------------------------------------------------------------------------

#[test]
fn empty_sequence_loads_an_empty_sheet() {
    let sheet = StylesheetParser::parse_yaml("[]").unwrap();
    assert_eq!(sheet.len(), 0);
    let sheet = StylesheetParser::load(&Vec::new()).unwrap();
    assert_eq!(sheet.len(), 0);
}

#[test]
fn sample_stylesheet_loads() {
    let yaml = "
- name: TableHeader
  family: table-cell
  _scope: automatic
  table-cell-properties:
    fo:padding-top: 0.1cm
    fo:padding-bottom: 0.1cm
    fo:border-top: \"1pt solid #000000\"
    fo:border-bottom: \"0.5pt solid #000000\"

- name: TableHeaderParagraph
  family: paragraph
  _scope: automatic
  text-properties:
    fo:font-family: \"Liberation Sans\"
    fo:font-weight: bold
";
    let sheet = StylesheetParser::parse_yaml(yaml).unwrap();
    assert_eq!(names(&sheet), vec!["TableHeader", "TableHeaderParagraph"]);
    let header = sheet.get("TableHeader").unwrap();
    assert_eq!(header.family, StyleFamily::TableCell);
    assert!(header.automatic);
    let cell = header.properties.get(StylePropertyGroup::TableCellProperties).unwrap();
    assert_eq!(
        cell.attributes(),
        vec![
            attr("fo:padding-top", "0.1cm"),
            attr("fo:padding-bottom", "0.1cm"),
            attr("fo:border-top", "1pt solid #000000"),
            attr("fo:border-bottom", "0.5pt solid #000000"),
        ]
    );
    assert!(header.properties.get(StylePropertyGroup::TextProperties).is_none());
    let par = sheet.get("TableHeaderParagraph").unwrap();
    assert_eq!(par.family, StyleFamily::Paragraph);
    let text = par.properties.get(StylePropertyGroup::TextProperties).unwrap();
    assert_eq!(text.get("fo:font-family"), Some("Liberation Sans"));
    assert_eq!(text.get("fo:font-weight"), Some("bold"));
}

#[test]
fn automatic_scope_puts_style_in_automatic_view() {
    let sheet =
        StylesheetParser::parse_yaml("- name: C\n  family: table-cell\n  _scope: automatic\n")
            .unwrap();
    assert!(sheet.get("C").unwrap().is_automatic());
    assert_eq!(sheet.get("C").unwrap().family, StyleFamily::TableCell);
    let (named, automatic) = views(&sheet);
    assert!(named.is_empty());
    assert_eq!(automatic, vec!["C"]);
}

#[test]
fn other_or_absent_scope_puts_style_in_named_view() {
    for yaml in [
        "- name: C\n  family: table-cell\n",
        "- name: C\n  family: table-cell\n  _scope: named\n",
        "- name: C\n  family: table-cell\n  _scope: Automatic\n",
        "- name: C\n  family: table-cell\n  _scope: true\n",
        "- name: C\n  family: table-cell\n  _scope: ''\n",
    ] {
        let sheet = StylesheetParser::parse_yaml(yaml).unwrap();
        assert!(!sheet.get("C").unwrap().is_automatic());
        let (named, automatic) = views(&sheet);
        assert_eq!(named, vec!["C"]);
        assert!(automatic.is_empty());
    }
}

#[test]
fn unknown_family_fails_the_whole_load() {
    let yaml = "- name: Good\n  family: text\n- name: Bad\n  family: graphic\n- name: Later\n  family: text\n";
    assert_eq!(
        StylesheetParser::parse_yaml(yaml).err(),
        Some(LoadError::Declaration(1, DeclarationError::UnknownFamily("graphic".to_string())))
    );
    let declarations = vec![
        map(vec![("name", s("Good")), ("family", s("text"))]),
        map(vec![("name", s("Bad")), ("family", s("Text"))]),
    ];
    assert_eq!(
        StylesheetParser::load(&declarations).err(),
        Some(LoadError::Declaration(1, DeclarationError::UnknownFamily("Text".to_string())))
    );
}

#[test]
fn tab_stops_are_recorded_in_paragraph_properties() {
    let yaml = "
- name: P
  family: paragraph
  paragraph-properties:
    fo:margin-left: 1cm
    tab-stops:
      - position: 2.5cm
      - position: \" 17 cm \"
        type: right
    fo:margin-right: 2cm
";
    let sheet = StylesheetParser::parse_yaml(yaml).unwrap();
    let item = sheet.get("P").unwrap().properties.get(StylePropertyGroup::ParagraphProperties).unwrap();
    assert_eq!(item.tab_stop_count(), 2);
    assert_eq!(item.tab_stop(0), &TabStop { position: "2.5cm".to_string(), type_: None });
    assert_eq!(
        item.tab_stop(1),
        &TabStop { position: " 17 cm ".to_string(), type_: Some("right".to_string()) }
    );
    assert_eq!(item.attributes(), vec![attr("fo:margin-left", "1cm"), attr("fo:margin-right", "2cm")]);
}

#[test]
fn empty_tab_stops_record_nothing() {
    let yaml = "- name: P\n  family: paragraph\n  paragraph-properties:\n    tab-stops: []\n";
    let sheet = StylesheetParser::parse_yaml(yaml).unwrap();
    let item = sheet.get("P").unwrap().properties.get(StylePropertyGroup::ParagraphProperties).unwrap();
    assert_eq!(item.tab_stop_count(), 0);
    assert!(item.attributes().is_empty());
}

#[test]
fn tab_stops_outside_paragraph_properties_fail() {
    for (group, name) in [
        (StylePropertyGroup::TextProperties, "text-properties"),
        (StylePropertyGroup::TableProperties, "table-properties"),
        (StylePropertyGroup::TableColumnProperties, "table-column-properties"),
        (StylePropertyGroup::TableRowProperties, "table-row-properties"),
        (StylePropertyGroup::TableCellProperties, "table-cell-properties"),
    ] {
        let yaml = format!(
            "- name: P\n  family: paragraph\n  {}:\n    tab-stops:\n      - position: 1cm\n",
            name
        );
        assert_eq!(declaration_error(&yaml), (0, DeclarationError::MisplacedTabStops(group)));
    }
}

#[test]
fn values_are_stringified() {
    let yaml = "
- name: V
  family: text
  default-outline-level: 3
  text-properties:
    a: text
    b: 12
    c: -4
    d: 1.5
    e: true
    f: false
    g: '007'
";
    let sheet = StylesheetParser::parse_yaml(yaml).unwrap();
    let style = sheet.get("V").unwrap();
    assert_eq!(style.default_outline_level, Some(3));
    let item = style.properties.get(StylePropertyGroup::TextProperties).unwrap();
    assert_eq!(
        item.attributes(),
        vec![
            attr("a", "text"),
            attr("b", "12"),
            attr("c", "-4"),
            attr("d", "1.5"),
            attr("e", "true"),
            attr("f", "false"),
            attr("g", "007"),
        ]
    );
}

#[test]
fn outline_level_out_of_range_is_dropped() {
    for (text, expected) in [
        ("0", Some(0u8)),
        ("255", Some(255)),
        ("256", None),
        ("18446744073709551615", None),
        ("-1", None),
        ("1.0", None),
        ("'3'", None),
        ("~", None),
    ] {
        let yaml = format!("- name: O\n  family: paragraph\n  default-outline-level: {}\n", text);
        let sheet = StylesheetParser::parse_yaml(&yaml).unwrap();
        assert_eq!(sheet.get("O").unwrap().default_outline_level, expected);
    }
}

#[test]
fn optional_fields_are_read() {
    let yaml = "
- name: F
  family: table-row
  parent-style-name: Parent
  next-style-name: Next
  class: extra
  display-name: Shown
  unknown-key: ignored
";
    let sheet = StylesheetParser::parse_yaml(yaml).unwrap();
    let style = sheet.get("F").unwrap();
    assert_eq!(style.family, StyleFamily::TableRow);
    assert_eq!(style.parent_style_name.as_deref(), Some("Parent"));
    assert_eq!(style.next_style_name.as_deref(), Some("Next"));
    assert_eq!(style.class.as_deref(), Some("extra"));
    assert_eq!(style.display_name.as_deref(), Some("Shown"));
    assert_eq!(style.default_outline_level, None);
    for group in StylePropertyGroup::all() {
        assert!(style.properties.get(group).is_none());
    }
}

#[test]
fn optional_field_that_is_no_string_is_absent() {
    let yaml = "- name: F\n  family: text\n  class: 5\n  display-name: [a]\n";
    let sheet = StylesheetParser::parse_yaml(yaml).unwrap();
    let style = sheet.get("F").unwrap();
    assert_eq!(style.class, None);
    assert_eq!(style.display_name, None);
}

#[test]
fn last_declaration_of_a_name_wins() {
    let yaml = "
- name: A
  family: text
  class: first
- name: B
  family: text
- name: A
  family: table
  _scope: automatic
";
    let sheet = StylesheetParser::parse_yaml(yaml).unwrap();
    assert_eq!(names(&sheet), vec!["A", "B"]);
    let a = sheet.get("A").unwrap();
    assert_eq!(a.family, StyleFamily::Table);
    assert_eq!(a.class, None);
    assert!(a.automatic);
}

#[test]
fn empty_group_makes_an_empty_bag() {
    let yaml = "- name: E\n  family: text\n  text-properties: {}\n";
    let sheet = StylesheetParser::parse_yaml(yaml).unwrap();
    let item = sheet.get("E").unwrap().properties.get(StylePropertyGroup::TextProperties).unwrap();
    assert!(item.attributes().is_empty());
    assert!(sheet.get("E").unwrap().properties.get(StylePropertyGroup::ParagraphProperties).is_none());
}

#[test]
fn repeated_key_in_hand_built_group_overwrites() {
    let declaration = map(vec![
        ("name", s("D")),
        ("family", s("text")),
        ("text-properties", map(vec![("k", s("1")), ("j", s("2")), ("k", s("3"))])),
    ]);
    let style = StylesheetParser::parse_style(&declaration).unwrap();
    let item = style.properties.get(StylePropertyGroup::TextProperties).unwrap();
    assert_eq!(item.attributes(), vec![attr("k", "3"), attr("j", "2")]);
}

// ---------------------------------------------------------------------------
// Each error
// ---------------------------------------------------------------------------

#[test]
fn text_that_is_no_yaml_sequence_is_a_syntax_error() {
    match StylesheetParser::parse_yaml("name: A\nfamily: text\n") {
        Err(LoadError::Syntax(message)) => assert!(!message.is_empty()),
        other => panic!("unexpected {:?}", other.err()),
    }
    assert!(matches!(StylesheetParser::parse_yaml("- {"), Err(LoadError::Syntax(_))));
}

#[test]
fn declaration_that_is_no_mapping_is_refused() {
    assert_eq!(declaration_error("- 5\n"), (0, DeclarationError::NotAMapping));
    assert_eq!(
        declaration_error("- name: A\n  family: text\n- [a, b]\n"),
        (1, DeclarationError::NotAMapping)
    );
    assert_eq!(StylesheetParser::parse_style(&YamlValue::Null).err(), Some(DeclarationError::NotAMapping));
}

#[test]
fn missing_required_fields_are_refused() {
    assert_eq!(declaration_error("- family: text\n"), (0, DeclarationError::MissingName));
    assert_eq!(declaration_error("- name: 5\n  family: text\n"), (0, DeclarationError::MissingName));
    assert_eq!(declaration_error("- name: A\n"), (0, DeclarationError::MissingFamily));
    assert_eq!(declaration_error("- name: A\n  family: [text]\n"), (0, DeclarationError::MissingFamily));
    assert_eq!(declaration_error("- {}\n"), (0, DeclarationError::MissingName));
}

#[test]
fn group_that_is_no_mapping_is_refused() {
    assert_eq!(
        declaration_error("- name: A\n  family: text\n  text-properties: bold\n"),
        (0, DeclarationError::GroupNotAMapping(StylePropertyGroup::TextProperties))
    );
    assert_eq!(
        declaration_error("- name: A\n  family: text\n  table-row-properties: [1]\n"),
        (0, DeclarationError::GroupNotAMapping(StylePropertyGroup::TableRowProperties))
    );
}

#[test]
fn first_refused_group_in_canonical_order_is_reported() {
    let yaml = "- name: A\n  family: text\n  table-cell-properties: 1\n  paragraph-properties: 2\n";
    assert_eq!(
        declaration_error(yaml),
        (0, DeclarationError::GroupNotAMapping(StylePropertyGroup::ParagraphProperties))
    );
}

#[test]
fn key_that_is_no_string_is_refused() {
    assert_eq!(
        declaration_error("- name: A\n  family: text\n  text-properties:\n    5: five\n"),
        (0, DeclarationError::InvalidKey(StylePropertyGroup::TextProperties))
    );
}

#[test]
fn wrong_shaped_values_are_refused() {
    let group = StylePropertyGroup::TextProperties;
    for value in ["~", "{a: b}", "!tag x", "[1, 2]"] {
        let yaml = format!("- name: A\n  family: text\n  text-properties:\n    fo:key: {}\n", value);
        assert_eq!(
            declaration_error(&yaml),
            (0, DeclarationError::InvalidValue(group, "fo:key".to_string()))
        );
    }
    let yaml = "- name: A\n  family: paragraph\n  paragraph-properties:\n    stops: [1]\n";
    assert_eq!(
        declaration_error(yaml),
        (0, DeclarationError::InvalidValue(StylePropertyGroup::ParagraphProperties, "stops".to_string()))
    );
}

#[test]
fn tab_stops_of_wrong_shape_are_refused() {
    let yaml = "- name: A\n  family: paragraph\n  paragraph-properties:\n    tab-stops: [1cm]\n";
    assert_eq!(declaration_error(yaml), (0, DeclarationError::TabStopNotAMapping));
    let yaml = "- name: A\n  family: paragraph\n  paragraph-properties:\n    tab-stops:\n      - position: 1cm\n      - type: left\n";
    assert_eq!(declaration_error(yaml), (0, DeclarationError::TabStopWithoutPosition));
    let yaml = "- name: A\n  family: paragraph\n  paragraph-properties:\n    tab-stops:\n      - position: 5\n";
    assert_eq!(declaration_error(yaml), (0, DeclarationError::TabStopWithoutPosition));
}

#[test]
fn error_messages() {
    let group = StylePropertyGroup::TableCellProperties;
    assert_eq!(DeclarationError::NotAMapping.message(), "All styles should be mappings!");
    assert_eq!(
        DeclarationError::MissingName.message(),
        "Required field 'name' invalid or not found!"
    );
    assert_eq!(
        DeclarationError::MissingFamily.message(),
        "Required field 'family' invalid or not found!"
    );
    assert_eq!(
        DeclarationError::UnknownFamily("graphic".to_string()).message(),
        "Unknown style family: 'graphic'"
    );
    assert_eq!(
        DeclarationError::GroupNotAMapping(group).message(),
        "Property table-cell-properties should be a dictionary!"
    );
    assert_eq!(
        DeclarationError::InvalidKey(group).message(),
        "Invalid key in table-cell-properties!"
    );
    assert_eq!(
        DeclarationError::InvalidValue(group, "fo:x".to_string()).message(),
        "Invalid value for: 'fo:x'"
    );
    assert_eq!(
        DeclarationError::MisplacedTabStops(group).message(),
        "Tab stops only allowed in paragraph properties!"
    );
    assert_eq!(DeclarationError::TabStopNotAMapping.message(), "Tab stops must be mappings!");
    assert_eq!(
        DeclarationError::TabStopWithoutPosition.message(),
        "Required field 'position' invalid or not found!"
    );
    assert_eq!(LoadError::Syntax("bad".to_string()).message(), "bad");
    assert_eq!(
        LoadError::Declaration(4, DeclarationError::NotAMapping).message(),
        "All styles should be mappings!"
    );
}

#[test]
fn helpers_read_fields() {
    let entries = vec![
        (s("text"), s("value")),
        (s("number"), YamlValue::Number { text: "9".to_string(), unsigned: Some(9) }),
    ];
    assert_eq!(StylesheetParser::yaml_optional_string(&entries, "text"), Some("value".to_string()));
    assert_eq!(StylesheetParser::yaml_optional_string(&entries, "number"), None);
    assert_eq!(StylesheetParser::yaml_optional_string(&entries, "missing"), None);
    assert_eq!(StylesheetParser::yaml_optional_u64(&entries, "number"), Some(9));
    assert_eq!(StylesheetParser::yaml_optional_u64(&entries, "text"), None);
    assert_eq!(StylesheetParser::yaml_optional_u64(&entries, "missing"), None);
}
