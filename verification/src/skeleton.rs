//! The skeleton document: a fixed XML document with marker comments at the
//! places where generated content goes, and the plan by which its events and
//! the generated ones are put in a row.

use vstd::prelude::*;
use crate::strings::{owned, str_eq};
use crate::xml_event::{events_view, Event, EventView};

verus! {

/// `xml::reader::XmlEvent`: an event of an XML document as the reader gives
/// it. It is carried as it is; nothing is known of what it holds.
#[verifier::external_type_specification]
#[verifier::external_body]
pub struct ExSkeletonEvent(xml::reader::XmlEvent);

/// `xml::reader::Error`: why the reader gave up.
#[verifier::external_type_specification]
#[verifier::external_body]
pub struct ExSkeletonError(xml::reader::Error);

// ============================================================================
// Markers
// ============================================================================

/// The places of a skeleton where generated content goes, in the order in
/// which they must stand.
#[derive(Debug, Clone, Copy, PartialEq, Eq, Hash, Structural)]
pub enum Marker {
    Styles,
    AutomaticStyles,
    Header,
    Body,
}

impl Marker {
    /// The text of the comment that marks the place.
    pub open spec fn spec_text(self) -> Seq<char> {
        match self {
            Marker::Styles => "__STYLES__"@,
            Marker::AutomaticStyles => "__AUTOMATIC_STYLES__"@,
            Marker::Header => "__HEADER__"@,
            Marker::Body => "__BODY__"@,
        }
    }

    /// The text of the comment that marks the place.
    pub fn as_str(&self) -> (text: &'static str)
        ensures
            text@ == self.spec_text(),
    {
        match self {
            Marker::Styles => "__STYLES__",
            Marker::AutomaticStyles => "__AUTOMATIC_STYLES__",
            Marker::Header => "__HEADER__",
            Marker::Body => "__BODY__",
        }
    }
}

// ============================================================================
// What is read of a skeleton event
// ============================================================================

/// What the plan needs to know of one skeleton event.
#[derive(Debug, PartialEq, Eq)]
pub enum EventClass {
    /// The end of the document.
    EndDocument,
    /// A comment, with its text. Where a plan is made, the text has been
    /// trimmed.
    Comment(String),
    /// Anything else: it is copied as it is.
    Markup,
}

/// The mathematical value of an [`EventClass`].
pub enum EventClassView {
    EndDocument,
    Comment(Seq<char>),
    Markup,
}

impl View for EventClass {
    type V = EventClassView;

    open spec fn view(&self) -> EventClassView {
        match *self {
            EventClass::EndDocument => EventClassView::EndDocument,
            EventClass::Comment(text) => EventClassView::Comment(text@),
            EventClass::Markup => EventClassView::Markup,
        }
    }
}

/// The views of a sequence of classes, in order.
pub open spec fn classes_view(classes: Seq<EventClass>) -> Seq<EventClassView> {
    classes.map_values(|c: EventClass| c@)
}

/// The events of the XML document `text`, comments among them, up to and
/// with the end of the document; none where `text` is not well-formed XML.
pub uninterp spec fn skeleton_events(text: Seq<char>) -> Option<Seq<xml::reader::XmlEvent>>;

/// Of what class a skeleton event is: the end of the document, a comment with
/// its text as it stands in the document, or markup.
pub uninterp spec fn class_of(event: xml::reader::XmlEvent) -> EventClassView;

/// `text` without the white space at its start and at its end.
pub uninterp spec fn trimmed(text: Seq<char>) -> Seq<char>;

/// Reads `text` with `xml::reader::EventReader`, comments kept, and collects
/// what its iterator yields: every event up to and with the end of the
/// document, or the first error. What it returns is taken for a function of
/// the text, under the name `skeleton_events`; nothing more is claimed of it.
#[verifier::external_body]
pub(crate) fn read_events(text: &str) -> (r: Result<
    Vec<xml::reader::XmlEvent>,
    xml::reader::Error,
>)
    ensures
        match r {
            Ok(events) => skeleton_events(text@) == Some(events@),
            Err(_) => skeleton_events(text@) is None,
        },
{
    let config = xml::reader::ParserConfig::new().ignore_comments(false);
    xml::reader::EventReader::new_with_config(text.as_bytes(), config).into_iter().collect()
}

/// Tells the variants of `xml::reader::XmlEvent` apart: `EndDocument`,
/// `Comment` with a copy of its text, and all others as markup. What it
/// returns is taken for a function of the event, under the name `class_of`.
#[verifier::external_body]
pub(crate) fn classify(event: &xml::reader::XmlEvent) -> (class: EventClass)
    ensures
        class@ == class_of(*event),
{
    match event {
        xml::reader::XmlEvent::EndDocument => EventClass::EndDocument,
        xml::reader::XmlEvent::Comment(text) => EventClass::Comment(text.clone()),
        _ => EventClass::Markup,
    }
}

/// The text of an `xml::reader::Error`, by `to_string`. Nothing is claimed
/// of it.
#[verifier::external_body]
pub(crate) fn reader_error_text(error: &xml::reader::Error) -> (message: String) {
    error.to_string()
}

/// `str::trim`: the text without leading and trailing white space. What it
/// returns is taken for a function of the text, under the name `trimmed`.
#[verifier::external_body]
pub(crate) fn trim(text: &str) -> (r: &str)
    ensures
        r@ == trimmed(text@),
{
    text.trim()
}

/// The class of an event as the plan reads it: the text of a comment is
/// trimmed.
pub open spec fn plan_class(event: xml::reader::XmlEvent) -> EventClassView {
    match class_of(event) {
        EventClassView::Comment(text) => EventClassView::Comment(trimmed(text)),
        other => other,
    }
}

/// The classes of a sequence of events as the plan reads them, in order.
pub open spec fn plan_classes(events: Seq<xml::reader::XmlEvent>) -> Seq<EventClassView> {
    events.map_values(|e: xml::reader::XmlEvent| plan_class(e))
}

/// The class of each event, with the text of each comment trimmed.
pub fn classify_all(events: &Vec<xml::reader::XmlEvent>) -> (classes: Vec<EventClass>)
    ensures
        classes_view(classes@) == plan_classes(events@),
{
    let mut classes: Vec<EventClass> = Vec::new();
    let mut i: usize = 0;
    while i < events.len()
        invariant
            i <= events.len(),
            classes_view(classes@) == plan_classes(events@).take(i as int),
        decreases events.len() - i,
    {
        let class = match classify(&events[i]) {
            EventClass::Comment(text) => EventClass::Comment(owned(trim(text.as_str()))),
            other => other,
        };
        assert(class@ == plan_class(events@[i as int]));
        let ghost before = classes_view(classes@);
        classes.push(class);
        assert(classes_view(classes@) =~= before.push(class@));
        assert(classes_view(classes@) =~= plan_classes(events@).take(i as int + 1));
        i += 1;
    }
    assert(plan_classes(events@).take(events.len() as int) =~= plan_classes(events@));
    classes
}

/// Reads the XML document `text` into its events, comments among them, up
/// to and with the end of the document. An error holds the reader's message.
pub fn read_skeleton(text: &str) -> (r: Result<Vec<xml::reader::XmlEvent>, String>)
    ensures
        match r {
            Ok(events) => skeleton_events(text@) == Some(events@),
            Err(_) => skeleton_events(text@) is None,
        },
{
    match read_events(text) {
        Ok(events) => Ok(events),
        Err(error) => Err(reader_error_text(&error)),
    }
}

// ============================================================================
// The plan
// ============================================================================

/// One step of the output: the skeleton event at a place, copied as it is,
/// or a generated event.
#[derive(Debug, PartialEq, Eq)]
pub enum Step {
    Copy(usize),
    Emit(Event),
}

/// The mathematical value of a [`Step`].
pub enum StepView {
    Copy(int),
    Emit(EventView),
}

impl View for Step {
    type V = StepView;

    open spec fn view(&self) -> StepView {
        match *self {
            Step::Copy(index) => StepView::Copy(index as int),
            Step::Emit(event) => StepView::Emit(event@),
        }
    }
}

/// The views of a sequence of steps, in order.
pub open spec fn steps_view(steps: Seq<Step>) -> Seq<StepView> {
    steps.map_values(|s: Step| s@)
}

/// The steps that copy the skeleton events from `from` up to, not with,
/// `to`: none where `to` is not after `from`.
pub open spec fn copies(from: int, to: int) -> Seq<StepView> {
    if from < to {
        Seq::new((to - from) as nat, |k: int| StepView::Copy(from + k))
    } else {
        Seq::empty()
    }
}

/// Copying one event more adds one step at the end.
pub proof fn lemma_copies_push(from: int, to: int)
    requires
        from <= to,
    ensures
        copies(from, to + 1) == copies(from, to).push(StepView::Copy(to)),
{
    assert(copies(from, to + 1) =~= copies(from, to).push(StepView::Copy(to)));
}

/// The steps that emit `events`, in order.
pub open spec fn emits(events: Seq<EventView>) -> Seq<StepView> {
    events.map_values(|e: EventView| StepView::Emit(e))
}

/// The place of the first comment at or after `from` whose text is `marker`,
/// with no end of the document before it; none if the document ends first.
pub open spec fn marker_position(
    classes: Seq<EventClassView>,
    from: int,
    marker: Seq<char>,
) -> Option<int>
    decreases classes.len() - from,
{
    if from < 0 || from >= classes.len() {
        None
    } else {
        match classes[from] {
            EventClassView::EndDocument => None,
            EventClassView::Comment(text) => if text == marker {
                Some(from)
            } else {
                marker_position(classes, from + 1, marker)
            },
            EventClassView::Markup => marker_position(classes, from + 1, marker),
        }
    }
}

/// The place of the comment of `marker` at or after `from`.
pub open spec fn marker_after(classes: Seq<EventClassView>, from: int, marker: Marker) -> Option<int> {
    marker_position(classes, from, marker.spec_text())
}

/// The place of the first end of the document at or after `from`, or the
/// number of events if there is none.
pub open spec fn document_end(classes: Seq<EventClassView>, from: int) -> int
    decreases classes.len() - from,
{
    if from < 0 || from >= classes.len() {
        classes.len() as int
    } else if classes[from] is EndDocument {
        from
    } else {
        document_end(classes, from + 1)
    }
}

/// Where a marker stands, it stands at or after the place from which it was
/// sought, and everything between is neither the marker nor the end of the
/// document.
pub proof fn lemma_marker_position(classes: Seq<EventClassView>, from: int, marker: Seq<char>)
    ensures
        marker_position(classes, from, marker) matches Some(p) ==> 0 <= from <= p < classes.len()
            && classes[p] == EventClassView::Comment(marker) && forall|k: int|
            from <= k < p ==> !(#[trigger] classes[k] is EndDocument) && classes[k]
                != EventClassView::Comment(marker),
    decreases classes.len() - from,
{
    if from < 0 || from >= classes.len() {
    } else {
        lemma_marker_position(classes, from + 1, marker);
    }
}

/// The document's end stands at or after the place from which it was sought,
/// and nothing before it is an end.
pub proof fn lemma_document_end(classes: Seq<EventClassView>, from: int)
    requires
        0 <= from <= classes.len(),
    ensures
        from <= document_end(classes, from) <= classes.len(),
        forall|k: int|
            from <= k < document_end(classes, from) ==> !(#[trigger] classes[k] is EndDocument),
    decreases classes.len() - from,
{
    if from < classes.len() && !(classes[from] is EndDocument) {
        lemma_document_end(classes, from + 1);
    }
}

/// The four fragments that go to the four markers.
pub struct Fragments {
    pub styles: Vec<Event>,
    pub automatic_styles: Vec<Event>,
    pub header: Vec<Event>,
    pub body: Vec<Event>,
}

/// The mathematical value of [`Fragments`].
pub struct FragmentsView {
    pub styles: Seq<EventView>,
    pub automatic_styles: Seq<EventView>,
    pub header: Seq<EventView>,
    pub body: Seq<EventView>,
}

impl View for Fragments {
    type V = FragmentsView;

    open spec fn view(&self) -> FragmentsView {
        FragmentsView {
            styles: events_view(self.styles@),
            automatic_styles: events_view(self.automatic_styles@),
            header: events_view(self.header@),
            body: events_view(self.body@),
        }
    }
}

/// Why no plan could be made.
#[derive(Debug, Clone, Copy, PartialEq, Eq, Structural)]
pub enum PlanError {
    /// The skeleton ends before the comment of this marker.
    MissingMarker(Marker),
}

/// The places of the four marker comments in a skeleton.
pub struct Places {
    pub styles: int,
    pub automatic_styles: int,
    pub header: int,
    pub body: int,
}

/// Where the four marker comments stand: each is sought after the one before
/// it, so they must stand in their order. The first that is not found before
/// the document ends is the error.
pub open spec fn marker_places(classes: Seq<EventClassView>) -> Result<Places, PlanError> {
    match marker_after(classes, 0, Marker::Styles) {
        None => Err(PlanError::MissingMarker(Marker::Styles)),
        Some(styles) => match marker_after(classes, styles + 1, Marker::AutomaticStyles) {
            None => Err(PlanError::MissingMarker(Marker::AutomaticStyles)),
            Some(automatic_styles) => match marker_after(
                classes,
                automatic_styles + 1,
                Marker::Header,
            ) {
                None => Err(PlanError::MissingMarker(Marker::Header)),
                Some(header) => match marker_after(classes, header + 1, Marker::Body) {
                    None => Err(PlanError::MissingMarker(Marker::Body)),
                    Some(body) => Ok(Places { styles, automatic_styles, header, body }),
                },
            },
        },
    }
}

/// The steps up to the body: the skeleton copied from its start up to the
/// body's marker, with the first three fragments in the places of their
/// markers.
pub open spec fn plan_before_body(places: Places, fragments: FragmentsView) -> Seq<StepView> {
    copies(0, places.styles) + emits(fragments.styles) + copies(
        places.styles + 1,
        places.automatic_styles,
    ) + emits(fragments.automatic_styles) + copies(places.automatic_styles + 1, places.header)
        + emits(fragments.header) + copies(places.header + 1, places.body)
}

/// The steps for markers at `places`: the skeleton copied event by event,
/// but for the four marker comments, in the place of each of which stands its
/// fragment. The copy ends before the end of the document.
pub open spec fn plan_at(
    classes: Seq<EventClassView>,
    places: Places,
    fragments: FragmentsView,
) -> Seq<StepView> {
    plan_before_body(places, fragments) + emits(fragments.body) + copies(
        places.body + 1,
        document_end(classes, places.body + 1),
    )
}

/// The plan of the output, where the four markers stand in their order.
pub open spec fn spec_plan(classes: Seq<EventClassView>, fragments: FragmentsView) -> Result<
    Seq<StepView>,
    PlanError,
> {
    match marker_places(classes) {
        Err(e) => Err(e),
        Ok(places) => Ok(plan_at(classes, places, fragments)),
    }
}

/// A step can be taken: what it copies is an event of the skeleton, and not
/// the end of the document.
pub open spec fn copyable(classes: Seq<EventClassView>, step: StepView) -> bool {
    match step {
        StepView::Copy(index) => 0 <= index < classes.len() && !(classes[index] is EndDocument),
        StepView::Emit(_) => true,
    }
}

/// Every step of `steps` can be taken.
pub open spec fn all_copyable(classes: Seq<EventClassView>, steps: Seq<StepView>) -> bool {
    forall|k: int| 0 <= k < steps.len() ==> copyable(classes, #[trigger] steps[k])
}

/// Steps that can be taken, followed by steps that can be taken.
proof fn lemma_all_copyable_concat(classes: Seq<EventClassView>, a: Seq<StepView>, b: Seq<StepView>)
    requires
        all_copyable(classes, a),
        all_copyable(classes, b),
    ensures
        all_copyable(classes, a + b),
{
    assert forall|k: int| 0 <= k < (a + b).len() implies copyable(classes, #[trigger] (a + b)[k]) by {
        if k < a.len() {
            assert((a + b)[k] == a[k]);
        } else {
            assert((a + b)[k] == b[k - a.len()]);
        }
    }
}

/// The copies up to a marker can be taken.
proof fn lemma_copies_to_marker(classes: Seq<EventClassView>, from: int, marker: Seq<char>)
    requires
        0 <= from,
        marker_position(classes, from, marker) is Some,
    ensures
        all_copyable(classes, copies(from, marker_position(classes, from, marker)->0)),
{
    lemma_marker_position(classes, from, marker);
    let p = marker_position(classes, from, marker)->0;
    assert forall|k: int| 0 <= k < copies(from, p).len() implies copyable(
        classes,
        #[trigger] copies(from, p)[k],
    ) by {
        assert(!(classes[from + k] is EndDocument));
    }
}

/// Every step of a plan can be taken: a plan copies only events that the
/// skeleton has, and never the end of the document.
pub proof fn lemma_plan_copyable(classes: Seq<EventClassView>, fragments: FragmentsView)
    ensures
        spec_plan(classes, fragments) matches Ok(steps) ==> all_copyable(classes, steps),
{
    if let Ok(places) = marker_places(classes) {
        let styles_at = places.styles;
        let automatic_at = places.automatic_styles;
        let header_at = places.header;
        let body_at = places.body;
        lemma_marker_position(classes, 0, Marker::Styles.spec_text());
        lemma_marker_position(classes, styles_at + 1, Marker::AutomaticStyles.spec_text());
        lemma_marker_position(classes, automatic_at + 1, Marker::Header.spec_text());
        lemma_marker_position(classes, header_at + 1, Marker::Body.spec_text());
        lemma_copies_to_marker(classes, 0, Marker::Styles.spec_text());
        lemma_copies_to_marker(classes, styles_at + 1, Marker::AutomaticStyles.spec_text());
        lemma_copies_to_marker(classes, automatic_at + 1, Marker::Header.spec_text());
        lemma_copies_to_marker(classes, header_at + 1, Marker::Body.spec_text());
        lemma_document_end(classes, body_at + 1);
        let end = document_end(classes, body_at + 1);
        assert(all_copyable(classes, copies(body_at + 1, end))) by {
            assert forall|k: int| 0 <= k < copies(body_at + 1, end).len() implies copyable(
                classes,
                #[trigger] copies(body_at + 1, end)[k],
            ) by {
                assert(!(classes[body_at + 1 + k] is EndDocument));
            }
        }
        let s1 = copies(0, styles_at);
        let s2 = s1 + emits(fragments.styles);
        let s3 = s2 + copies(styles_at + 1, automatic_at);
        let s4 = s3 + emits(fragments.automatic_styles);
        let s5 = s4 + copies(automatic_at + 1, header_at);
        let s6 = s5 + emits(fragments.header);
        let s7 = s6 + copies(header_at + 1, body_at);
        let s8 = s7 + emits(fragments.body);
        lemma_all_copyable_concat(classes, s1, emits(fragments.styles));
        lemma_all_copyable_concat(classes, s2, copies(styles_at + 1, automatic_at));
        lemma_all_copyable_concat(classes, s3, emits(fragments.automatic_styles));
        lemma_all_copyable_concat(classes, s4, copies(automatic_at + 1, header_at));
        lemma_all_copyable_concat(classes, s5, emits(fragments.header));
        lemma_all_copyable_concat(classes, s6, copies(header_at + 1, body_at));
        lemma_all_copyable_concat(classes, s7, emits(fragments.body));
        lemma_all_copyable_concat(classes, s8, copies(body_at + 1, end));
    }
}

/// Appends to `plan` a copy of each skeleton event from `from` on, until the
/// comment of `marker` is found, and returns the place of that comment. The
/// comment itself is not copied; other comments are. Where the document ends
/// before the marker, everything up to its end has been copied.
pub fn copy_until_marker(
    classes: &Vec<EventClass>,
    from: usize,
    marker: Marker,
    plan: &mut Vec<Step>,
) -> (r: Result<usize, PlanError>)
    ensures
        match marker_position(classes_view(classes@), from as int, marker.spec_text()) {
            Some(p) => r == Ok::<usize, PlanError>(p as usize) && from <= p < classes.len()
                && steps_view(final(plan)@) == steps_view(old(plan)@) + copies(from as int, p),
            None => r == Err::<usize, PlanError>(PlanError::MissingMarker(marker))
                && steps_view(final(plan)@) == steps_view(old(plan)@) + copies(
                from as int,
                document_end(classes_view(classes@), from as int),
            ),
        },
{
    let ghost all = classes_view(classes@);
    let text = marker.as_str();
    let mut i: usize = from;
    assert(steps_view(plan@) =~= steps_view(old(plan)@) + copies(from as int, i as int));
    while i < classes.len()
        invariant
            from <= i,
            i <= classes.len() || i == from,
            all == classes_view(classes@),
            text@ == marker.spec_text(),
            marker_position(all, from as int, marker.spec_text()) == marker_position(
                all,
                i as int,
                marker.spec_text(),
            ),
            document_end(all, from as int) == document_end(all, i as int),
            steps_view(plan@) == steps_view(old(plan)@) + copies(from as int, i as int),
        decreases classes.len() - i,
    {
        assert(all[i as int] == classes@[i as int]@);
        match &classes[i] {
            EventClass::EndDocument => {
                return Err(PlanError::MissingMarker(marker));
            },
            EventClass::Comment(comment) => {
                if str_eq(comment.as_str(), text) {
                    return Ok(i);
                }
            },
            EventClass::Markup => {},
        }
        let ghost before = steps_view(plan@);
        plan.push(Step::Copy(i));
        proof {
            assert(steps_view(plan@) =~= before.push(StepView::Copy(i as int)));
            lemma_copies_push(from as int, i as int);
            assert(steps_view(plan@) =~= steps_view(old(plan)@) + copies(
                from as int,
                i as int + 1,
            ));
        }
        i += 1;
    }
    assert(document_end(all, i as int) == all.len());
    assert(copies(from as int, i as int) =~= copies(from as int, all.len() as int));
    Err(PlanError::MissingMarker(marker))
}

/// Appends to `plan` a copy of each skeleton event from `from` on, up to the
/// end of the document.
fn copy_rest(classes: &Vec<EventClass>, from: usize, plan: &mut Vec<Step>)
    requires
        from <= classes.len(),
    ensures
        steps_view(final(plan)@) == steps_view(old(plan)@) + copies(
            from as int,
            document_end(classes_view(classes@), from as int),
        ),
{
    let ghost all = classes_view(classes@);
    let mut i: usize = from;
    assert(steps_view(plan@) =~= steps_view(old(plan)@) + copies(from as int, i as int));
    while i < classes.len()
        invariant
            from <= i <= classes.len(),
            all == classes_view(classes@),
            document_end(all, from as int) == document_end(all, i as int),
            steps_view(plan@) == steps_view(old(plan)@) + copies(from as int, i as int),
        decreases classes.len() - i,
    {
        assert(all[i as int] == classes@[i as int]@);
        if let EventClass::EndDocument = &classes[i] {
            return;
        }
        let ghost before = steps_view(plan@);
        plan.push(Step::Copy(i));
        proof {
            assert(steps_view(plan@) =~= before.push(StepView::Copy(i as int)));
            lemma_copies_push(from as int, i as int);
            assert(steps_view(plan@) =~= steps_view(old(plan)@) + copies(
                from as int,
                i as int + 1,
            ));
        }
        i += 1;
    }
}

/// Appends to `plan` a step for each event of `events`, in order. The events
/// are taken out of `events`.
fn emit_all(events: Vec<Event>, plan: &mut Vec<Step>)
    ensures
        steps_view(final(plan)@) == steps_view(old(plan)@) + emits(events_view(events@)),
{
    let ghost all = events_view(events@);
    assert(steps_view(plan@) =~= steps_view(old(plan)@) + emits(all.take(0)));
    for event in iter: events
        invariant
            events_view(iter.seq()) == all,
            steps_view(plan@) == steps_view(old(plan)@) + emits(all.take(iter.index() as int)),
    {
        let ghost before = steps_view(plan@);
        let ghost k = iter.index() as int;
        assert(event@ == all[k]);
        plan.push(Step::Emit(event));
        proof {
            assert(steps_view(plan@) =~= before.push(StepView::Emit(all[k])));
            assert(emits(all.take(k + 1)) =~= emits(all.take(k)).push(StepView::Emit(all[k])));
            assert(steps_view(plan@) =~= steps_view(old(plan)@) + emits(all.take(k + 1)));
        }
    }
    assert(all.take(all.len() as int) =~= all);
}

/// Makes the plan of the output from the classes of the skeleton's events
/// and the four fragments.
pub fn make_plan(classes: &Vec<EventClass>, fragments: Fragments) -> (r: Result<
    Vec<Step>,
    PlanError,
>)
    ensures
        match spec_plan(classes_view(classes@), fragments@) {
            Ok(steps) => r matches Ok(plan) && steps_view(plan@) == steps,
            Err(e) => r == Err::<Vec<Step>, PlanError>(e),
        },
{
    let mut plan: Vec<Step> = Vec::new();
    assert(steps_view(plan@) =~= Seq::<StepView>::empty());
    let Fragments { styles, automatic_styles, header, body } = fragments;

    let styles_at = match copy_until_marker(classes, 0, Marker::Styles, &mut plan) {
        Ok(p) => p,
        Err(e) => {
            return Err(e);
        },
    };
    emit_all(styles, &mut plan);

    let automatic_at = match copy_until_marker(
        classes,
        styles_at + 1,
        Marker::AutomaticStyles,
        &mut plan,
    ) {
        Ok(p) => p,
        Err(e) => {
            return Err(e);
        },
    };
    emit_all(automatic_styles, &mut plan);

    let header_at = match copy_until_marker(classes, automatic_at + 1, Marker::Header, &mut plan) {
        Ok(p) => p,
        Err(e) => {
            return Err(e);
        },
    };
    emit_all(header, &mut plan);

    let body_at = match copy_until_marker(classes, header_at + 1, Marker::Body, &mut plan) {
        Ok(p) => p,
        Err(e) => {
            return Err(e);
        },
    };
    emit_all(body, &mut plan);

    // The rest of the document
    copy_rest(classes, body_at + 1, &mut plan);
    assert(steps_view(plan@) =~= spec_plan(classes_view(classes@), fragments@)->Ok_0);
    Ok(plan)
}

/// Why a text cannot serve as a skeleton.
#[derive(Debug, PartialEq, Eq)]
pub enum SkeletonError {
    /// The text is not well-formed XML; with the reader's message.
    NotXml(String),
    /// The document ends before the comment of this marker.
    MissingMarker(Marker),
}

/// Checks that `text` can serve as a skeleton: that it is well-formed XML
/// and holds the four marker comments in their order.
pub fn check_skeleton(text: &str) -> (r: Result<(), SkeletonError>)
    ensures
        match skeleton_events(text@) {
            None => r matches Err(SkeletonError::NotXml(_)),
            Some(events) => match marker_places(plan_classes(events)) {
                Ok(_) => r is Ok,
                Err(PlanError::MissingMarker(marker)) => r matches Err(
                    SkeletonError::MissingMarker(m),
                ) && m == marker,
            },
        },
{
    let events = match read_skeleton(text) {
        Ok(events) => events,
        Err(message) => {
            return Err(SkeletonError::NotXml(message));
        },
    };
    let classes = classify_all(&events);
    let nothing = Fragments {
        styles: Vec::new(),
        automatic_styles: Vec::new(),
        header: Vec::new(),
        body: Vec::new(),
    };
    match make_plan(&classes, nothing) {
        Ok(_) => Ok(()),
        Err(PlanError::MissingMarker(marker)) => Err(SkeletonError::MissingMarker(marker)),
    }
}

} // verus!
