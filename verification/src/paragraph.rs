//! Paragraphs.

use vstd::prelude::*;
use crate::container::{Container, Node};
use crate::fodt_xml_write::{
    optional_view, present_attributes, push_present_attributes, FlatOdtXmlWrite,
    OptionalAttributes,
};
use crate::strings::{as_deref, option_string, owned};
use crate::text::Text;
use crate::xml_event::{
    events_view, lemma_well_nested_element, push_event, Attribute, Event, EventView,
};

verus! {

/// A paragraph: an optional style and what it contains.
pub struct Paragraph {
    pub style_name: Option<String>,
    pub content: Container,
}

impl Paragraph {
    /// The optional attributes of a paragraph: its style.
    pub open spec fn spec_optional_attributes(&self) -> OptionalAttributes {
        seq![("text:style_name"@, option_string(self.style_name))]
    }

    /// A `text:p` element around what the paragraph contains.
    pub open spec fn spec_events(&self) -> Seq<EventView>
        decreases self,
    {
        seq![
            EventView::Start {
                name: "text:p"@,
                attributes: present_attributes(self.spec_optional_attributes()),
            },
        ] + self.content.spec_events() + seq![EventView::End]
    }

    /// A paragraph emits a well-formed fragment.
    pub proof fn lemma_well_nested(&self)
        ensures
            crate::xml_event::well_nested(self.spec_events()),
        decreases self,
    {
        self.content.lemma_well_nested();
        lemma_well_nested_element(
            "text:p"@,
            present_attributes(self.spec_optional_attributes()),
            self.content.spec_events(),
        );
    }

    /// An empty paragraph without a style.
    pub fn new() -> (r: Paragraph)
        ensures
            r.style_name is None,
            r.content@ == Seq::<Node>::empty(),
    {
        Paragraph { style_name: None, content: Container::new() }
    }

    /// A paragraph of the given style that holds `text` and nothing else.
    pub fn from_text_and_style(text: &str, style_name: &str) -> (r: Paragraph)
        ensures
            option_string(r.style_name) == Some(style_name@),
            r.content@.len() == 1,
            r.content@[0] matches Node::Text(t) && t.text@ == text@,
    {
        let mut par = Paragraph::new();
        par.content.add(Node::Text(Text { text: owned(text) }));
        par.style_name = Some(owned(style_name));
        par
    }

    /// The paragraph's optional attributes, each with its value if it has one.
    pub fn optional_list(&self) -> (list: Vec<(&'static str, Option<&str>)>)
        ensures
            optional_view(list@) == self.spec_optional_attributes(),
    {
        let mut list: Vec<(&'static str, Option<&str>)> = Vec::new();
        list.push(("text:style_name", as_deref(&self.style_name)));
        assert(optional_view(list@) =~= self.spec_optional_attributes());
        list
    }

    /// Appends the paragraph's events to `writer`.
    pub fn write_events(&self, writer: &mut Vec<Event>)
        ensures
            events_view(final(writer)@) == events_view(old(writer)@) + self.spec_events(),
        decreases self,
    {
        let mut attributes: Vec<Attribute> = Vec::new();
        let list = self.optional_list();
        push_present_attributes(&mut attributes, &list);
        push_event(writer, Event::start("text:p", attributes));
        self.content.write_events(writer);
        push_event(writer, Event::EndElement);
        assert(events_view(writer@) =~= events_view(old(writer)@) + self.spec_events());
    }
}

impl FlatOdtXmlWrite for Paragraph {
    open spec fn events(&self) -> Seq<EventView> {
        self.spec_events()
    }

    open spec fn optional_attributes(&self) -> OptionalAttributes {
        self.spec_optional_attributes()
    }

    proof fn lemma_events_well_nested(&self) {
        self.lemma_well_nested();
    }

    fn write_flat_odt_xml(&self, writer: &mut Vec<Event>) {
        self.write_events(writer);
    }

    fn optional_string_attributes(&self) -> (list: Vec<(&'static str, Option<&str>)>) {
        self.optional_list()
    }
}

} // verus!
