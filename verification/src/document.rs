//! The document: a stylesheet, a header and a body, and its generation as
//! one flat XML file from the skeleton.

use vstd::pervasive::unreached;
use vstd::prelude::*;
use crate::container::{nodes_events, Container, Node};
use crate::fodt_xml_write::present_attributes;
use crate::paragraph::Paragraph;
use crate::render::{
    lemma_copyable_steps_are_written, render, render_outcome, rendered, RenderError,
    RenderOutcome,
};
use crate::skeleton::{
    classify_all, copies, document_end, emits, lemma_plan_copyable, make_plan, marker_places,
    plan_before_body, plan_classes, read_events, reader_error_text, skeleton_events, spec_plan,
    EventClassView, Fragments, FragmentsView, Marker, PlanError, StepView,
};
use crate::strings::joined;
use crate::stylesheet::{
    automatic_styles, lemma_styles_well_nested, named_styles, styles_events, Stylesheet,
    WRITER_STYLES_YAML,
};
use crate::stylesheet_parser::{spec_load, LoadError};
use crate::yaml::yaml_declarations;
use crate::xml_event::{
    attributes_view, events_view, lemma_well_nested_element, lemma_well_nested_empty,
    lemma_well_nested_text, push_event, well_nested, Attribute, AttributeView, Event, EventView,
};

verus! {

/// The skeleton of a blank text document. Generated content goes where the
/// four marker comments stand.
pub const BLANK_FODT: &'static str = r#"<?xml version="1.0" encoding="UTF-8"?>
<office:document xmlns:office="urn:oasis:names:tc:opendocument:xmlns:office:1.0" xmlns:style="urn:oasis:names:tc:opendocument:xmlns:style:1.0" xmlns:text="urn:oasis:names:tc:opendocument:xmlns:text:1.0" xmlns:table="urn:oasis:names:tc:opendocument:xmlns:table:1.0" xmlns:draw="urn:oasis:names:tc:opendocument:xmlns:drawing:1.0" xmlns:fo="urn:oasis:names:tc:opendocument:xmlns:xsl-fo-compatible:1.0" xmlns:xlink="http://www.w3.org/1999/xlink" xmlns:svg="urn:oasis:names:tc:opendocument:xmlns:svg-compatible:1.0" office:version="1.3" office:mimetype="application/vnd.oasis.opendocument.text">
<office:styles>
<!-- __STYLES__ -->
</office:styles>
<office:automatic-styles>
<style:page-layout style:name="pm1">
<style:page-layout-properties fo:page-width="21cm" fo:page-height="29.7cm" fo:margin-top="2cm" fo:margin-bottom="2cm" fo:margin-left="2cm" fo:margin-right="2cm"/>
</style:page-layout>
<!-- __AUTOMATIC_STYLES__ -->
</office:automatic-styles>
<office:master-styles>
<style:master-page style:name="Standard" style:page-layout-name="pm1">
<!-- __HEADER__ -->
</style:master-page>
</office:master-styles>
<office:body>
<office:text>
<!-- __BODY__ -->
</office:text>
</office:body>
</office:document>
"#;

/// The paragraph that stands for an empty body: one empty paragraph of the
/// style `Standard`.
pub open spec fn placeholder_events() -> Seq<EventView> {
    seq![
        EventView::Start {
            name: "text:p"@,
            attributes: seq![AttributeView { name: "text:style_name"@, value: "Standard"@ }],
        },
        EventView::Text(""@),
        EventView::End,
    ]
}

/// What is written for the header: nothing where it has no children, else
/// its children inside a `style:header` element.
pub open spec fn header_events(header: Container) -> Seq<EventView> {
    if header@.len() > 0 {
        seq![EventView::Start { name: "style:header"@, attributes: Seq::empty() }]
            + header.spec_events() + seq![EventView::End]
    } else {
        Seq::empty()
    }
}

/// What is written for the body: its children, or the placeholder paragraph
/// where it has none, so that the body is never empty.
pub open spec fn body_events(body: Container) -> Seq<EventView> {
    if body@.len() == 0 {
        placeholder_events()
    } else {
        body.spec_events()
    }
}

/// The placeholder is one paragraph element of the style `Standard`, closed
/// where it was opened, with an empty text in it.
pub proof fn lemma_placeholder_is_one_paragraph()
    ensures
        placeholder_events().len() == 3,
        placeholder_events()[0] matches EventView::Start { name, attributes } && name == "text:p"@
            && attributes == seq![
            AttributeView { name: "text:style_name"@, value: "Standard"@ },
        ],
        placeholder_events()[1] == EventView::Text(""@),
        placeholder_events()[2] == EventView::End,
        well_nested(placeholder_events()),
{
    lemma_well_nested_text(""@);
    lemma_well_nested_element(
        "text:p"@,
        seq![AttributeView { name: "text:style_name"@, value: "Standard"@ }],
        seq![EventView::Text(""@)],
    );
    assert(placeholder_events() =~= seq![
        EventView::Start {
            name: "text:p"@,
            attributes: seq![AttributeView { name: "text:style_name"@, value: "Standard"@ }],
        },
    ] + seq![EventView::Text(""@)] + seq![EventView::End]);
}

/// Why a document could not be generated.
#[derive(Debug, PartialEq, Eq)]
pub enum GenerateError {
    /// The skeleton is not well-formed XML; with the reader's message.
    Skeleton(String),
    /// The skeleton ends before the comment of this marker.
    MissingMarker(Marker),
    /// The XML writer refused the step at this place of the plan; with its
    /// message.
    Refused(usize, String),
}

impl GenerateError {
    /// The text that says what the error is.
    pub open spec fn spec_text(self) -> Seq<char> {
        match self {
            GenerateError::Skeleton(message) => message@,
            GenerateError::MissingMarker(marker) => "Marker "@ + marker.spec_text()
                + " not found before the end of the skeleton!"@,
            GenerateError::Refused(at, message) => message@,
        }
    }

    /// The error in words.
    pub fn message(&self) -> (text: String)
        ensures
            text@ == self.spec_text(),
    {
        match self {
            GenerateError::Skeleton(message) => message.clone(),
            GenerateError::MissingMarker(marker) => {
                let start = joined("Marker ", marker.as_str());
                joined(start.as_str(), " not found before the end of the skeleton!")
            },
            GenerateError::Refused(at, message) => message.clone(),
        }
    }
}

/// How the generation of a document ends.
pub enum GenerateOutcome {
    /// The bytes of the document.
    Bytes(Seq<u8>),
    /// The skeleton is not well-formed XML.
    NotXml,
    /// The skeleton ends before the comment of this marker.
    MissingMarker(Marker),
    /// The XML writer refused the step at this place of the plan.
    Refused(int),
}

/// The main structure of the document tree.
pub struct Document {
    pub stylesheet: Stylesheet,
    pub header: Container,
    pub body: Container,
}

impl Document {
    /// The four fragments that the document puts at the skeleton's markers:
    /// the named styles, the automatic styles, the header and the body.
    pub open spec fn fragments(&self) -> FragmentsView {
        FragmentsView {
            styles: styles_events(named_styles(self.stylesheet@)),
            automatic_styles: styles_events(automatic_styles(self.stylesheet@)),
            header: header_events(self.header),
            body: body_events(self.body),
        }
    }

    /// How the generation from the skeleton `skeleton` ends: the skeleton is
    /// read, the plan is made from its events and the document's fragments,
    /// and the plan is written. A plan has no step that cannot be written
    /// (see `lemma_plan_is_writable`), so the writing ends with the bytes or
    /// with a step that the writer refuses.
    pub open spec fn spec_generate(&self, skeleton: Seq<char>) -> GenerateOutcome {
        match skeleton_events(skeleton) {
            None => GenerateOutcome::NotXml,
            Some(events) => match spec_plan(plan_classes(events), self.fragments()) {
                Err(PlanError::MissingMarker(marker)) => GenerateOutcome::MissingMarker(marker),
                Ok(steps) => match render_outcome(events, steps) {
                    RenderOutcome::Done(all) => GenerateOutcome::Bytes(rendered(all)),
                    RenderOutcome::BadStep(k) | RenderOutcome::Refused(k) => GenerateOutcome::Refused(k),
                },
            },
        }
    }

    /// A document whose body is empty is generated with the placeholder
    /// paragraph as its body, and with nothing else there: in every plan the
    /// placeholder stands between the copy of what precedes the body's
    /// marker and the copy of what follows it.
    pub proof fn lemma_empty_body_gets_placeholder(&self, classes: Seq<EventClassView>)
        requires
            self.body@.len() == 0,
        ensures
            self.fragments().body == placeholder_events(),
            marker_places(classes) matches Ok(places) ==> spec_plan(classes, self.fragments())
                == Ok::<Seq<StepView>, PlanError>(
                plan_before_body(places, self.fragments()) + emits(placeholder_events()) + copies(
                    places.body + 1,
                    document_end(classes, places.body + 1),
                ),
            ),
    {
    }

    /// The four fragments of a document are well formed, each for itself.
    pub proof fn lemma_fragments_well_nested(&self)
        ensures
            well_nested(self.fragments().styles),
            well_nested(self.fragments().automatic_styles),
            well_nested(self.fragments().header),
            well_nested(self.fragments().body),
    {
        lemma_styles_well_nested(named_styles(self.stylesheet@));
        lemma_styles_well_nested(automatic_styles(self.stylesheet@));
        self.header.lemma_well_nested();
        self.body.lemma_well_nested();
        lemma_well_nested_empty();
        lemma_placeholder_is_one_paragraph();
        if self.header@.len() > 0 {
            lemma_well_nested_element("style:header"@, Seq::empty(), self.header.spec_events());
        }
    }

    /// Generation is a function of the document's content and the skeleton:
    /// two documents with the same styles, header and body, generated from
    /// the same skeleton, end in the same way and, where they succeed, with
    /// the same bytes. So does one document that is generated twice.
    pub proof fn lemma_generation_is_determined(&self, other: Document, skeleton: Seq<char>)
        requires
            self.stylesheet@ == other.stylesheet@,
            self.header@ == other.header@,
            self.body@ == other.body@,
        ensures
            self.fragments() == other.fragments(),
            self.spec_generate(skeleton) == other.spec_generate(skeleton),
    {
    }

    /// The plan of a document is written to its end unless the XML writer
    /// refuses a step: no step of it is one that cannot be written.
    pub proof fn lemma_plan_is_writable(&self, events: Seq<xml::reader::XmlEvent>)
        ensures
            spec_plan(plan_classes(events), self.fragments()) matches Ok(steps) ==> !(
            render_outcome(events, steps) is BadStep),
    {
        lemma_plan_copyable(plan_classes(events), self.fragments());
        if let Ok(steps) = spec_plan(plan_classes(events), self.fragments()) {
            lemma_copyable_steps_are_written(events, steps);
        }
    }

    /// A blank document with the default stylesheet. An error says that the
    /// default stylesheet did not load.
    pub fn new() -> (r: Result<Document, LoadError>)
        ensures
            match yaml_declarations(WRITER_STYLES_YAML@) {
                None => r matches Err(LoadError::Syntax(_)),
                Some(declarations) => match spec_load(declarations) {
                    Ok(styles) => r matches Ok(document) && document.stylesheet@ == styles
                        && document.header@ == Seq::<Node>::empty() && document.body@
                        == Seq::<Node>::empty(),
                    Err(e) => r matches Err(error) && error@ == e,
                },
            },
    {
        match Stylesheet::load_default() {
            Ok(stylesheet) => Ok(Document::with_stylesheet(stylesheet)),
            Err(error) => Err(error),
        }
    }

    /// A blank document with the given stylesheet.
    pub fn with_stylesheet(stylesheet: Stylesheet) -> (document: Document)
        ensures
            document.stylesheet == stylesheet,
            document.header@ == Seq::<Node>::empty(),
            document.body@ == Seq::<Node>::empty(),
    {
        Document { stylesheet, header: Container::new(), body: Container::new() }
    }

    /// Appends the events of the header.
    pub fn write_header(&self, writer: &mut Vec<Event>)
        ensures
            events_view(final(writer)@) == events_view(old(writer)@) + header_events(self.header),
    {
        if self.header.len() > 0 {
            let none: Vec<Attribute> = Vec::new();
            assert(attributes_view(none@) =~= Seq::empty());
            push_event(writer, Event::start("style:header", none));
            self.header.write_events(writer);
            push_event(writer, Event::EndElement);
            assert(events_view(writer@) =~= events_view(old(writer)@) + header_events(
                self.header,
            ));
        } else {
            assert(events_view(writer@) =~= events_view(old(writer)@) + header_events(
                self.header,
            ));
        }
    }

    /// Appends the events of the body. The document is left as it is: the
    /// placeholder of an empty body is written and not kept.
    pub fn write_body(&self, writer: &mut Vec<Event>)
        ensures
            events_view(final(writer)@) == events_view(old(writer)@) + body_events(self.body),
    {
        if self.body.len() == 0 {
            let placeholder = Paragraph::from_text_and_style("", "Standard");
            proof {
                let content = placeholder.content@;
                assert(content.drop_last() =~= Seq::<Node>::empty());
                assert(nodes_events(content.drop_last()) =~= Seq::<EventView>::empty());
                let node = content[0];
                assert(content.last() == node);
                assert(node matches Node::Text(t) && t.text@ == ""@);
                assert(node.spec_events() =~= seq![EventView::Text(""@)]);
                assert(nodes_events(content) =~= seq![EventView::Text(""@)]);
                let optional = placeholder.spec_optional_attributes();
                assert(optional.drop_last() =~= Seq::empty());
                assert(present_attributes(optional.drop_last()) =~= Seq::empty());
                assert(present_attributes(optional) =~= seq![
                    AttributeView { name: "text:style_name"@, value: "Standard"@ },
                ]);
                assert(placeholder.spec_events() =~= placeholder_events());
            }
            placeholder.write_events(writer);
        } else {
            self.body.write_events(writer);
        }
    }

    /// The four fragments of the document, as events.
    pub fn make_fragments(&self) -> (fragments: Fragments)
        ensures
            fragments@ == self.fragments(),
    {
        let mut styles: Vec<Event> = Vec::new();
        let mut automatic_styles: Vec<Event> = Vec::new();
        let mut header: Vec<Event> = Vec::new();
        let mut body: Vec<Event> = Vec::new();
        assert(events_view(styles@) =~= Seq::empty());
        assert(events_view(automatic_styles@) =~= Seq::empty());
        assert(events_view(header@) =~= Seq::empty());
        assert(events_view(body@) =~= Seq::empty());
        self.stylesheet.write_styles(&mut styles);
        self.stylesheet.write_automatic_styles(&mut automatic_styles);
        self.write_header(&mut header);
        self.write_body(&mut body);
        let fragments = Fragments { styles, automatic_styles, header, body };
        assert(fragments@.styles =~= self.fragments().styles);
        assert(fragments@.automatic_styles =~= self.fragments().automatic_styles);
        assert(fragments@.header =~= self.fragments().header);
        assert(fragments@.body =~= self.fragments().body);
        fragments
    }

    /// Generates the document from the skeleton `skeleton`: the bytes of one
    /// XML document, indented, in which the skeleton's events stand as they
    /// are and each marker comment has given way to its fragment.
    pub fn generate_from(&self, skeleton: &str) -> (r: Result<Vec<u8>, GenerateError>)
        ensures
            match self.spec_generate(skeleton@) {
                GenerateOutcome::Bytes(bytes) => r matches Ok(b) && b@ == bytes,
                GenerateOutcome::NotXml => r matches Err(GenerateError::Skeleton(_)),
                GenerateOutcome::MissingMarker(marker) => r matches Err(
                    GenerateError::MissingMarker(m),
                ) && m == marker,
                GenerateOutcome::Refused(k) => r matches Err(GenerateError::Refused(at, _))
                    && at == k,
            },
    {
        let events = match read_events(skeleton) {
            Ok(events) => events,
            Err(error) => {
                return Err(GenerateError::Skeleton(reader_error_text(&error)));
            },
        };
        let classes = classify_all(&events);
        let plan = match make_plan(&classes, self.make_fragments()) {
            Ok(plan) => plan,
            Err(PlanError::MissingMarker(marker)) => {
                return Err(GenerateError::MissingMarker(marker));
            },
        };
        proof {
            self.lemma_plan_is_writable(events@);
        }
        match render(&events, &plan) {
            Ok(bytes) => Ok(bytes),
            Err(RenderError::BadStep(at)) => unreached(),
            Err(RenderError::Refused(at, message)) => Err(GenerateError::Refused(at, message)),
        }
    }

    /// Generates the document as flat ODT, a single XML file, from the
    /// skeleton of a blank document.
    pub fn generate_fodt(&self) -> (r: Result<Vec<u8>, GenerateError>)
        ensures
            match self.spec_generate(BLANK_FODT@) {
                GenerateOutcome::Bytes(bytes) => r matches Ok(b) && b@ == bytes,
                GenerateOutcome::NotXml => r matches Err(GenerateError::Skeleton(_)),
                GenerateOutcome::MissingMarker(marker) => r matches Err(
                    GenerateError::MissingMarker(m),
                ) && m == marker,
                GenerateOutcome::Refused(k) => r matches Err(GenerateError::Refused(at, _))
                    && at == k,
            },
    {
        self.generate_from(BLANK_FODT)
    }
}

} // verus!
