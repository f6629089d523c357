//! What every part of a document can do: stand for a run of XML events, and
//! name its optional attributes.

use vstd::prelude::*;
use crate::xml_event::{
    attributes_view, events_view, push_attribute, well_nested, Attribute, AttributeView, Event,
    EventView,
};

verus! {

/// A list of attribute names, each with the value it has or with none.
pub type OptionalAttributes = Seq<(Seq<char>, Option<Seq<char>>)>;

/// The mathematical value of a list of optional attributes.
pub open spec fn optional_view(list: Seq<(&'static str, Option<&str>)>) -> OptionalAttributes {
    list.map_values(
        |pair: (&'static str, Option<&str>)|
            (
                pair.0@,
                match pair.1 {
                    Some(value) => Some(value@),
                    None => None,
                },
            ),
    )
}

/// The attributes of `list` that have a value, in the order of the list.
pub open spec fn present_attributes(list: OptionalAttributes) -> Seq<AttributeView>
    decreases list.len(),
{
    if list.len() == 0 {
        Seq::empty()
    } else {
        let rest = present_attributes(list.drop_last());
        match list.last().1 {
            Some(value) => rest.push(AttributeView { name: list.last().0, value }),
            None => rest,
        }
    }
}

/// Appends to `attributes` an attribute for each pair of `list` whose value is
/// present, in the order of the list, and skips the others.
pub fn push_present_attributes(
    attributes: &mut Vec<Attribute>,
    list: &Vec<(&'static str, Option<&str>)>,
)
    ensures
        attributes_view(final(attributes)@) == attributes_view(old(attributes)@)
            + present_attributes(optional_view(list@)),
{
    let ghost all = optional_view(list@);
    let mut i: usize = 0;
    while i < list.len()
        invariant
            i <= list.len(),
            all == optional_view(list@),
            attributes_view(attributes@) == attributes_view(old(attributes)@) + present_attributes(
                all.take(i as int),
            ),
        decreases list.len() - i,
    {
        proof {
            assert(all.take(i as int + 1).drop_last() =~= all.take(i as int));
        }
        let pair = &list[i];
        if let Some(value) = pair.1 {
            push_attribute(attributes, pair.0, value);
        }
        i += 1;
    }
    assert(all.take(list.len() as int) =~= all);
}

/// A part of a document that can be written as XML.
pub trait FlatOdtXmlWrite {
    /// The events that this part stands for.
    spec fn events(&self) -> Seq<EventView>;

    /// The optional attributes of this part's own element, in the order in
    /// which they are written.
    spec fn optional_attributes(&self) -> OptionalAttributes;

    /// What a part emits is a well-formed fragment: it closes each element it
    /// opens, innermost first, and no other.
    proof fn lemma_events_well_nested(&self)
        ensures
            well_nested(self.events()),
    ;

    /// Appends this part's events to `writer`.
    fn write_flat_odt_xml(&self, writer: &mut Vec<Event>)
        ensures
            events_view(final(writer)@) == events_view(old(writer)@) + self.events(),
    ;

    /// The optional attributes of this part's own element: each name with
    /// the value it has, if any.
    fn optional_string_attributes(&self) -> (list: Vec<(&'static str, Option<&str>)>)
        ensures
            optional_view(list@) == self.optional_attributes(),
    ;

    /// Appends to `attributes` those optional attributes that have a value.
    fn add_optional_string_attributes(&self, attributes: &mut Vec<Attribute>)
        ensures
            attributes_view(final(attributes)@) == attributes_view(old(attributes)@)
                + present_attributes(self.optional_attributes()),
    {
        let list = self.optional_string_attributes();
        push_present_attributes(attributes, &list);
    }
}

} // verus!
