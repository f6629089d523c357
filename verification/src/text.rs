//! Plain character data.

use vstd::prelude::*;
use crate::fodt_xml_write::{FlatOdtXmlWrite, OptionalAttributes};
use crate::xml_event::{lemma_well_nested_text, push_event, Event, EventView};

verus! {

/// A run of characters in the document.
pub struct Text {
    pub text: String,
}

impl Text {
    /// The single character-data event that this text stands for.
    pub open spec fn spec_events(&self) -> Seq<EventView> {
        seq![EventView::Text(self.text@)]
    }
}

impl FlatOdtXmlWrite for Text {
    open spec fn events(&self) -> Seq<EventView> {
        self.spec_events()
    }

    open spec fn optional_attributes(&self) -> OptionalAttributes {
        Seq::empty()
    }

    proof fn lemma_events_well_nested(&self) {
        lemma_well_nested_text(self.text@);
    }

    fn write_flat_odt_xml(&self, writer: &mut Vec<Event>) {
        push_event(writer, Event::characters(self.text.as_str()));
    }

    fn optional_string_attributes(&self) -> (list: Vec<(&'static str, Option<&str>)>) {
        let list: Vec<(&'static str, Option<&str>)> = Vec::new();
        assert(crate::fodt_xml_write::optional_view(list@) =~= Seq::empty());
        list
    }
}

} // verus!
