//! The XML events that the document tree emits, and what it means for a run
//! of them to be well nested.

use vstd::prelude::*;
use crate::strings::owned;

verus! {

/// One attribute of a start tag.
#[derive(Debug, PartialEq, Eq)]
pub struct Attribute {
    pub name: String,
    pub value: String,
}

/// The mathematical value of an [`Attribute`].
pub struct AttributeView {
    pub name: Seq<char>,
    pub value: Seq<char>,
}

impl View for Attribute {
    type V = AttributeView;

    open spec fn view(&self) -> AttributeView {
        AttributeView { name: self.name@, value: self.value@ }
    }
}

/// One generated XML event. An `EndElement` closes the element that was
/// opened last and is still open.
#[derive(Debug, PartialEq, Eq)]
pub enum Event {
    StartElement { name: String, attributes: Vec<Attribute> },
    EndElement,
    Characters(String),
}

/// The mathematical value of an [`Event`].
pub enum EventView {
    Start { name: Seq<char>, attributes: Seq<AttributeView> },
    End,
    Text(Seq<char>),
}

/// The views of a sequence of attributes, in order.
pub open spec fn attributes_view(attributes: Seq<Attribute>) -> Seq<AttributeView> {
    attributes.map_values(|a: Attribute| a@)
}

impl View for Event {
    type V = EventView;

    open spec fn view(&self) -> EventView {
        match *self {
            Event::StartElement { name, attributes } => EventView::Start {
                name: name@,
                attributes: attributes_view(attributes@),
            },
            Event::EndElement => EventView::End,
            Event::Characters(text) => EventView::Text(text@),
        }
    }
}

/// The views of a sequence of events, in order.
pub open spec fn events_view(events: Seq<Event>) -> Seq<EventView> {
    events.map_values(|e: Event| e@)
}

impl Attribute {
    /// The attribute `name="value"`.
    pub fn new(name: &str, value: &str) -> (r: Attribute)
        ensures
            r@ == (AttributeView { name: name@, value: value@ }),
    {
        Attribute { name: owned(name), value: owned(value) }
    }
}

impl Event {
    /// The start tag of an element called `name` with the given attributes.
    pub fn start(name: &str, attributes: Vec<Attribute>) -> (r: Event)
        ensures
            r@ == (EventView::Start { name: name@, attributes: attributes_view(attributes@) }),
    {
        Event::StartElement { name: owned(name), attributes }
    }

    /// Character data.
    pub fn characters(text: &str) -> (r: Event)
        ensures
            r@ == EventView::Text(text@),
    {
        Event::Characters(owned(text))
    }
}

/// Appends one attribute.
pub fn push_attribute(attributes: &mut Vec<Attribute>, name: &str, value: &str)
    ensures
        attributes_view(final(attributes)@) == attributes_view(old(attributes)@).push(
            AttributeView { name: name@, value: value@ },
        ),
{
    let attribute = Attribute::new(name, value);
    attributes.push(attribute);
    assert(attributes_view(attributes@) =~= attributes_view(old(attributes)@).push(attribute@));
}

/// Appends one event.
pub fn push_event(events: &mut Vec<Event>, event: Event)
    ensures
        events_view(final(events)@) == events_view(old(events)@).push(event@),
{
    events.push(event);
    assert(events_view(events@) =~= events_view(old(events)@).push(event@));
}

/// By how much one event changes the number of open elements.
pub open spec fn depth_change(event: EventView) -> int {
    match event {
        EventView::Start { .. } => 1,
        EventView::End => -1,
        EventView::Text(_) => 0,
    }
}

/// The number of elements that `events` leaves open: starts minus ends.
pub open spec fn depth(events: Seq<EventView>) -> int
    decreases events.len(),
{
    if events.len() == 0 {
        0
    } else {
        depth(events.drop_last()) + depth_change(events.last())
    }
}

/// No prefix of `events` closes more elements than it has opened.
pub open spec fn never_negative(events: Seq<EventView>) -> bool {
    forall|k: int| 0 <= k <= events.len() ==> depth(#[trigger] events.take(k)) >= 0
}

/// `events` is a well-formed fragment: every element it opens it also closes,
/// innermost first, and it closes nothing else.
pub open spec fn well_nested(events: Seq<EventView>) -> bool {
    never_negative(events) && depth(events) == 0
}

/// The depth of a single event is its own change.
pub proof fn lemma_depth_single(event: EventView)
    ensures
        depth(seq![event]) == depth_change(event),
{
    let s = seq![event];
    assert(s.drop_last() =~= Seq::<EventView>::empty());
    assert(depth(s.drop_last()) == 0);
}

/// The depth of a concatenation is the sum of the depths.
pub proof fn lemma_depth_concat(a: Seq<EventView>, b: Seq<EventView>)
    ensures
        depth(a + b) == depth(a) + depth(b),
    decreases b.len(),
{
    if b.len() == 0 {
        assert(a + b =~= a);
    } else {
        assert((a + b).drop_last() =~= a + b.drop_last());
        assert((a + b).last() == b.last());
        lemma_depth_concat(a, b.drop_last());
    }
}

/// Two well-formed fragments in a row are a well-formed fragment.
pub proof fn lemma_well_nested_concat(a: Seq<EventView>, b: Seq<EventView>)
    requires
        well_nested(a),
        well_nested(b),
    ensures
        well_nested(a + b),
{
    lemma_depth_concat(a, b);
    assert forall|k: int| 0 <= k <= (a + b).len() implies depth(#[trigger] (a + b).take(k)) >= 0 by {
        if k <= a.len() {
            assert((a + b).take(k) =~= a.take(k));
        } else {
            assert((a + b).take(k) =~= a + b.take(k - a.len()));
            lemma_depth_concat(a, b.take(k - a.len()));
        }
    }
}

/// A well-formed fragment between a start tag and an end tag is a well-formed
/// fragment.
pub proof fn lemma_well_nested_element(
    name: Seq<char>,
    attributes: Seq<AttributeView>,
    inner: Seq<EventView>,
)
    requires
        well_nested(inner),
    ensures
        well_nested(seq![EventView::Start { name, attributes }] + inner + seq![EventView::End]),
{
    let open = seq![EventView::Start { name, attributes }];
    let close = seq![EventView::End];
    let all = open + inner + close;
    lemma_depth_single(open[0]);
    lemma_depth_single(close[0]);
    lemma_depth_concat(open, inner);
    lemma_depth_concat(open + inner, close);
    assert forall|k: int| 0 <= k <= all.len() implies depth(#[trigger] all.take(k)) >= 0 by {
        if k == 0 {
            assert(all.take(k) =~= Seq::<EventView>::empty());
        } else if k <= inner.len() + 1 {
            assert(all.take(k) =~= open + inner.take(k - 1));
            lemma_depth_concat(open, inner.take(k - 1));
        } else {
            assert(all.take(k) =~= all);
        }
    }
}

/// Character data alone is a well-formed fragment.
pub proof fn lemma_well_nested_text(text: Seq<char>)
    ensures
        well_nested(seq![EventView::Text(text)]),
{
    let s = seq![EventView::Text(text)];
    lemma_depth_single(s[0]);
    assert forall|k: int| 0 <= k <= s.len() implies depth(#[trigger] s.take(k)) >= 0 by {
        if k == 0 {
            assert(s.take(k) =~= Seq::<EventView>::empty());
        } else {
            assert(s.take(k) =~= s);
        }
    }
}

/// Nothing at all is a well-formed fragment.
pub proof fn lemma_well_nested_empty()
    ensures
        well_nested(Seq::<EventView>::empty()),
{
    let none = Seq::<EventView>::empty();
    assert forall|k: int| 0 <= k <= 0 implies depth(#[trigger] none.take(k)) >= 0 by {
        assert(none.take(k) =~= none);
    }
}

} // verus!
