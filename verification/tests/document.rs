use flat_odt::container::Node;
use flat_odt::document::{Document, GenerateError, BLANK_FODT};
use flat_odt::paragraph::Paragraph;
use flat_odt::render::{render, RenderError};
use flat_odt::skeleton::{
    check_skeleton, classify_all, copy_until_marker, make_plan, read_skeleton, EventClass,
    Fragments, Marker, PlanError, SkeletonError, Step,
};
use flat_odt::style::{Style, StyleFamily};
use flat_odt::stylesheet::Stylesheet;
use flat_odt::table::{Table, TableCell, TableColumn, TableRow};
use flat_odt::xml_event::{Attribute, Event};

const SMALL: &str = "<doc><s><!--__STYLES__--></s><a><!-- __AUTOMATIC_STYLES__ --></a><h><!--\n__HEADER__\t--></h><b><!--__BODY__--></b></doc>";

fn text_of(bytes: Vec<u8>) -> String {
    String::from_utf8(bytes).unwrap()
}

fn blank() -> Document {
    Document::with_stylesheet(Stylesheet::new())
}

fn comment(text: &str) -> EventClass {
    EventClass::Comment(text.to_string())
}

fn no_fragments() -> Fragments {
    Fragments { styles: vec![], automatic_styles: vec![], header: vec![], body: vec![] }
}

fn chars(text: &str) -> Event {
    Event::Characters(text.to_string())
}

// ---------------------------------------------------------------------------
// The skeleton and the plan
// ---------------------------------------------------------------------------

#[test]
fn bundled_skeleton_holds_the_four_markers() {
    assert_eq!(check_skeleton(BLANK_FODT), Ok(()));
    assert_eq!(check_skeleton(SMALL), Ok(()));
}

#[test]
fn skeleton_events_are_classified() {
    let events = read_skeleton("<a><!--  x  --><b>t</b></a>").unwrap();
    let classes = classify_all(&events);
    assert_eq!(
        classes,
        vec![
            EventClass::Markup,
            EventClass::Markup,
            comment("x"),
            EventClass::Markup,
            EventClass::Markup,
            EventClass::Markup,
            EventClass::Markup,
            EventClass::EndDocument,
        ]
    );
}

#[test]
fn text_that_is_not_xml_is_no_skeleton() {
    assert!(read_skeleton("<a><b></a>").is_err());
    assert!(matches!(check_skeleton("<a><b></a>"), Err(SkeletonError::NotXml(_))));
    assert!(matches!(check_skeleton(""), Err(SkeletonError::NotXml(_))));
    match blank().generate_from("<a>") {
        Err(GenerateError::Skeleton(message)) => assert!(!message.is_empty()),
        other => panic!("unexpected {:?}", other),
    }
}

#[test]
fn each_missing_marker_is_named() {
    let all = [
        ("<!--__STYLES__-->", Marker::Styles),
        ("<!--__AUTOMATIC_STYLES__-->", Marker::AutomaticStyles),
        ("<!--__HEADER__-->", Marker::Header),
        ("<!--__BODY__-->", Marker::Body),
    ];
    for (text, marker) in all {
        let skeleton = SMALL.replace(text, "");
        let skeleton = skeleton.replace("<!-- __AUTOMATIC_STYLES__ -->", if marker == Marker::AutomaticStyles { "" } else { "<!-- __AUTOMATIC_STYLES__ -->" });
        let skeleton = skeleton.replace("<!--\n__HEADER__\t-->", if marker == Marker::Header { "" } else { "<!--\n__HEADER__\t-->" });
        assert_eq!(check_skeleton(&skeleton), Err(SkeletonError::MissingMarker(marker)));
        assert_eq!(blank().generate_from(&skeleton), Err(GenerateError::MissingMarker(marker)));
    }
}

#[test]
fn markers_out_of_order_are_missing() {
    let skeleton = "<d><!--__BODY__--><!--__STYLES__--><!--__AUTOMATIC_STYLES__--><!--__HEADER__--></d>";
    assert_eq!(check_skeleton(skeleton), Err(SkeletonError::MissingMarker(Marker::Body)));
    let skeleton = "<d><!--__AUTOMATIC_STYLES__--><!--__STYLES__--><!--__HEADER__--><!--__BODY__--></d>";
    assert_eq!(check_skeleton(skeleton), Err(SkeletonError::MissingMarker(Marker::AutomaticStyles)));
}

#[test]
fn copy_until_marker_copies_up_to_the_marker() {
    let classes = vec![
        EventClass::Markup,
        comment("note"),
        EventClass::Markup,
        comment("__HEADER__"),
        EventClass::Markup,
        EventClass::EndDocument,
        comment("__BODY__"),
    ];
    let mut plan = vec![Step::Emit(Event::EndElement)];
    assert_eq!(copy_until_marker(&classes, 0, Marker::Header, &mut plan), Ok(3));
    assert_eq!(
        plan,
        vec![Step::Emit(Event::EndElement), Step::Copy(0), Step::Copy(1), Step::Copy(2)]
    );
    let mut plan = Vec::new();
    assert_eq!(copy_until_marker(&classes, 3, Marker::Header, &mut plan), Ok(3));
    assert!(plan.is_empty());
    assert_eq!(
        copy_until_marker(&classes, 4, Marker::Body, &mut Vec::new()),
        Err(PlanError::MissingMarker(Marker::Body))
    );
    assert_eq!(
        copy_until_marker(&classes, 0, Marker::Styles, &mut Vec::new()),
        Err(PlanError::MissingMarker(Marker::Styles))
    );
    assert_eq!(
        copy_until_marker(&classes, 7, Marker::Body, &mut Vec::new()),
        Err(PlanError::MissingMarker(Marker::Body))
    );
    assert_eq!(
        copy_until_marker(&classes, 99, Marker::Body, &mut Vec::new()),
        Err(PlanError::MissingMarker(Marker::Body))
    );
}

#[test]
fn plan_puts_fragments_in_the_places_of_the_markers() {
    let classes = vec![
        EventClass::Markup,
        comment("__STYLES__"),
        comment("kept"),
        comment("__AUTOMATIC_STYLES__"),
        comment("__HEADER__"),
        EventClass::Markup,
        comment("__BODY__"),
        EventClass::Markup,
        EventClass::EndDocument,
        EventClass::Markup,
    ];
    let fragments = Fragments {
        styles: vec![chars("s1"), chars("s2")],
        automatic_styles: vec![],
        header: vec![chars("h")],
        body: vec![chars("b")],
    };
    assert_eq!(
        make_plan(&classes, fragments),
        Ok(vec![
            Step::Copy(0),
            Step::Emit(chars("s1")),
            Step::Emit(chars("s2")),
            Step::Copy(2),
            Step::Emit(chars("h")),
            Step::Copy(5),
            Step::Emit(chars("b")),
            Step::Copy(7),
        ])
    );
    let truncated = vec![
        EventClass::Markup,
        comment("__STYLES__"),
        comment("__AUTOMATIC_STYLES__"),
        comment("__HEADER__"),
        EventClass::Markup,
    ];
    assert_eq!(make_plan(&truncated, no_fragments()), Err(PlanError::MissingMarker(Marker::Body)));
    let ended = vec![
        comment("__STYLES__"),
        EventClass::EndDocument,
        comment("__AUTOMATIC_STYLES__"),
        comment("__HEADER__"),
        comment("__BODY__"),
    ];
    assert_eq!(
        make_plan(&ended, no_fragments()),
        Err(PlanError::MissingMarker(Marker::AutomaticStyles))
    );
    assert_eq!(make_plan(&Vec::new(), no_fragments()), Err(PlanError::MissingMarker(Marker::Styles)));
}

// ---------------------------------------------------------------------------
// Rendering
// ---------------------------------------------------------------------------

#[test]
fn render_copies_and_emits() {
    let events = read_skeleton("<a x=\"1\"><!--c--></a>").unwrap();
    let plan = vec![
        Step::Copy(0),
        Step::Copy(1),
        Step::Emit(Event::StartElement {
            name: "p:q".to_string(),
            attributes: vec![
                Attribute { name: "k".to_string(), value: "a\"b<c".to_string() },
                Attribute { name: "n:m".to_string(), value: "2".to_string() },
            ],
        }),
        Step::Emit(chars("1 < 2 & 3")),
        Step::Emit(Event::EndElement),
        Step::Copy(2),
        Step::Copy(3),
    ];
    let out = text_of(render(&events, &plan).unwrap());
    assert_eq!(
        out,
        "<?xml version=\"1.0\" encoding=\"UTF-8\"?>\n<a x=\"1\">\n  <p:q k=\"a&quot;b&lt;c\" n:m=\"2\">1 &lt; 2 &amp; 3</p:q>\n  <!-- c -->\n</a>"
    );
}

#[test]
fn render_of_nothing_is_empty() {
    let events = read_skeleton("<a/>").unwrap();
    assert_eq!(render(&events, &Vec::new()), Ok(Vec::new()));
}

#[test]
fn render_refuses_steps_that_copy_nothing() {
    let events = read_skeleton("<a/>").unwrap();
    assert_eq!(events.len(), 4);
    assert_eq!(render(&events, &vec![Step::Copy(0), Step::Copy(4)]), Err(RenderError::BadStep(1)));
    assert_eq!(render(&events, &vec![Step::Copy(3)]), Err(RenderError::BadStep(0)));
    assert_eq!(render(&events, &vec![Step::Copy(usize::MAX)]), Err(RenderError::BadStep(0)));
}

#[test]
fn render_reports_what_the_writer_refuses() {
    let events = read_skeleton("<a/>").unwrap();
    match render(&events, &vec![Step::Emit(chars("x")), Step::Emit(Event::EndElement)]) {
        Err(RenderError::Refused(1, message)) => assert!(message.contains("last element name")),
        other => panic!("unexpected {:?}", other),
    }
    match render(&events, &vec![Step::Copy(0), Step::Copy(1), Step::Copy(0)]) {
        Err(RenderError::Refused(2, message)) => assert!(message.contains("already")),
        other => panic!("unexpected {:?}", other),
    }
}

// ---------------------------------------------------------------------------
// Generation
// ---------------------------------------------------------------------------

#[test]
fn generation_from_a_small_skeleton() {
    let mut sheet = Stylesheet::new();
    sheet.add_style(Style::new("N".to_string(), StyleFamily::Text));
    let mut auto = Style::new("A".to_string(), StyleFamily::Table);
    auto.automatic = true;
    sheet.add_style(auto);
    let mut doc = Document::with_stylesheet(sheet);
    doc.header.add(Node::Paragraph(Paragraph::from_text_and_style("top", "H")));
    doc.body.add(Node::Paragraph(Paragraph::from_text_and_style("main", "B")));
    let out = text_of(doc.generate_from(SMALL).unwrap());
    assert_eq!(
        out,
        "<?xml version=\"1.0\" encoding=\"UTF-8\"?>\n\
<doc>\n  <s>\n    <style:style style:name=\"N\" style:family=\"text\" />\n  </s>\n  \
<a>\n    <style:style style:name=\"A\" style:family=\"table\" />\n  </a>\n  \
<h>\n    <style:header>\n      <text:p text:style_name=\"H\">top</text:p>\n    </style:header>\n  </h>\n  \
<b>\n    <text:p text:style_name=\"B\">main</text:p>\n  </b>\n</doc>"
    );
}

#[test]
fn empty_body_gets_one_placeholder_paragraph() {
    let doc = blank();
    let out = text_of(doc.generate_from(SMALL).unwrap());
    assert_eq!(
        out,
        "<?xml version=\"1.0\" encoding=\"UTF-8\"?>\n\
<doc>\n  <s />\n  <a />\n  <h />\n  <b>\n    <text:p text:style_name=\"Standard\"></text:p>\n  </b>\n</doc>"
    );
    // The placeholder is written, not kept.
    assert_eq!(doc.body.len(), 0);
    let mut body = Vec::new();
    doc.write_body(&mut body);
    assert_eq!(
        body,
        vec![
            Event::StartElement {
                name: "text:p".to_string(),
                attributes: vec![Attribute {
                    name: "text:style_name".to_string(),
                    value: "Standard".to_string()
                }],
            },
            chars(""),
            Event::EndElement,
        ]
    );
}

#[test]
fn empty_document_from_the_bundled_skeleton() {
    let doc = Document::new().unwrap();
    assert_eq!(doc.header.len(), 0);
    assert_eq!(doc.body.len(), 0);
    assert_eq!(doc.stylesheet.len(), 5);
    let out = text_of(doc.generate_fodt().unwrap());
    assert!(out.starts_with("<?xml version=\"1.0\" encoding=\"UTF-8\"?>\n<office:document "));
    assert!(out.ends_with("</office:document>"));
    assert_eq!(out.matches("<text:p").count(), 1);
    assert!(out.contains("<text:p text:style_name=\"Standard\"></text:p>"));
    assert!(!out.contains("__STYLES__"));
    assert!(!out.contains("__AUTOMATIC_STYLES__"));
    assert!(!out.contains("__HEADER__"));
    assert!(!out.contains("__BODY__"));
    assert!(!out.contains("style:header"));
    assert!(out.contains("<style:style style:name=\"Standard\" style:family=\"paragraph\" style:class=\"text\">"));
    let styles = out.find("<office:styles>").unwrap();
    let standard = out.find("style:name=\"Standard\" style:family").unwrap();
    let automatic = out.find("<office:automatic-styles>").unwrap();
    assert!(styles < standard && standard < automatic);
}

#[test]
fn header_is_wrapped_only_when_it_has_children() {
    let mut doc = blank();
    let mut header = Vec::new();
    doc.write_header(&mut header);
    assert!(header.is_empty());
    doc.header.add(Node::Paragraph(Paragraph::new()));
    doc.write_header(&mut header);
    assert_eq!(
        header,
        vec![
            Event::StartElement { name: "style:header".to_string(), attributes: vec![] },
            Event::StartElement { name: "text:p".to_string(), attributes: vec![] },
            Event::EndElement,
            Event::EndElement,
        ]
    );
}

#[test]
fn generating_twice_gives_the_same_bytes() {
    let mut doc = Document::new().unwrap();
    let first = doc.generate_fodt().unwrap();
    let second = doc.generate_fodt().unwrap();
    assert_eq!(first, second);
    doc.body.add(Node::Paragraph(Paragraph::from_text_and_style("Hello", "Standard")));
    let third = doc.generate_fodt().unwrap();
    let fourth = doc.generate_fodt().unwrap();
    assert_eq!(third, fourth);
    assert_ne!(first, third);
}

#[test]
fn other_comments_of_the_skeleton_are_copied() {
    let skeleton = SMALL.replace("<doc>", "<doc><!-- made by hand -->");
    let out = text_of(blank().generate_from(&skeleton).unwrap());
    assert!(out.contains("<!-- made by hand -->"));
    assert!(!out.contains("__BODY__"));
}

#[test]
fn end_to_end_paragraph_and_table() {
    let mut doc = Document::new().unwrap();
    doc.body.add(Node::Paragraph(Paragraph::from_text_and_style("Hello", "Standard")));
    let mut table = Table::new("T1");
    table.add_column(TableColumn::new());
    table.add_column(TableColumn::new());
    let mut row = TableRow::new();
    let mut a = TableCell::new();
    a.content.add(Node::Paragraph(Paragraph::from_text_and_style("a", "Standard")));
    a.value_type = Some("string".to_string());
    a.style_name = Some("Cell".to_string());
    let b = TableCell::new();
    row.add_cell(a);
    row.add_cell(b);
    table.add_row(row);
    doc.body.add(Node::Table(table));
    let out = text_of(doc.generate_fodt().unwrap());
    let header_end = out.find("</office:master-styles>").unwrap();
    let body = out.find("<office:body>").unwrap();
    let p = out.find("<text:p text:style_name=\"Standard\">Hello</text:p>").unwrap();
    let t = out.find("<table:table table:name=\"T1\">").unwrap();
    let body_end = out.find("</office:body>").unwrap();
    assert!(header_end < body && body < p && p < t && t < body_end);
    assert_eq!(out.matches("<table:table-column />").count(), 2);
    assert_eq!(out.matches("<table:table-row>").count(), 1);
    assert_eq!(out.matches("<table:table-cell").count(), 2);
    assert_eq!(
        out.matches("<table:table-cell table:style-name=\"Cell\" office:value-type=\"string\">").count(),
        1
    );
    assert_eq!(out.matches("<table:table-cell />").count(), 1);
    assert_eq!(out.matches("office:value-type").count(), 1);
    assert_eq!(out.matches("table:style-name").count(), 1);
    // Well-formed: the reader takes the whole output.
    assert!(read_skeleton(&out).is_ok());
}

#[test]
fn generate_error_messages() {
    assert_eq!(GenerateError::Skeleton("bad".to_string()).message(), "bad");
    assert_eq!(
        GenerateError::MissingMarker(Marker::AutomaticStyles).message(),
        "Marker __AUTOMATIC_STYLES__ not found before the end of the skeleton!"
    );
    assert_eq!(GenerateError::Refused(3, "no".to_string()).message(), "no");
    assert_eq!(Marker::Styles.as_str(), "__STYLES__");
    assert_eq!(Marker::Header.as_str(), "__HEADER__");
    assert_eq!(Marker::Body.as_str(), "__BODY__");
}
