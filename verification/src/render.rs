//! Writing a plan as XML text.

use vstd::prelude::*;
use crate::skeleton::{
    all_copyable, class_of, classify, copyable, plan_classes, EventClass, Step, StepView,
};
use crate::xml_event::{Event, EventView};

verus! {

/// `xml::writer::EventWriter`: the XML writer over a sink. Of one over a
/// vector of bytes it is known what it has been handed (`written`).
#[verifier::external_type_specification]
#[verifier::external_body]
#[verifier::reject_recursive_types(W)]
pub struct ExXmlSink<W>(xml::writer::EventWriter<W>);

/// `xml::writer::Error`: why the writer refused an event.
#[verifier::external_type_specification]
#[verifier::external_body]
pub struct ExXmlSinkError(xml::writer::Error);

/// One thing that was handed to the XML writer: a skeleton event to copy, or
/// a generated event.
pub enum Written {
    Copied(xml::reader::XmlEvent),
    Made(EventView),
}

/// What the XML writer has been handed since it was made, in order.
pub uninterp spec fn written(sink: xml::writer::EventWriter<Vec<u8>>) -> Seq<Written>;

/// Whether the XML writer, having been handed `before`, takes `next`.
pub uninterp spec fn accepts(before: Seq<Written>, next: Written) -> bool;

/// The bytes that the XML writer has put out when it has taken `all`.
pub uninterp spec fn rendered(all: Seq<Written>) -> Seq<u8>;

/// `xml::writer::EmitterConfig::new().perform_indent(true).create_writer`
/// over an empty vector of bytes: a writer that has been handed nothing.
#[verifier::external_body]
pub(crate) fn new_sink() -> (sink: xml::writer::EventWriter<Vec<u8>>)
    ensures
        written(sink) == Seq::<Written>::empty(),
{
    xml::writer::EmitterConfig::new().perform_indent(true).create_writer(Vec::new())
}

/// `write` of `xml::writer::EventWriter` on what `as_writer_event` makes of
/// a skeleton event. Whether the writer takes the event is taken for a
/// function of what it was handed before and of the event, under the name
/// `accepts`; where it does, the event is the last thing it was handed.
#[verifier::external_body]
pub(crate) fn write_copy(
    sink: &mut xml::writer::EventWriter<Vec<u8>>,
    event: &xml::reader::XmlEvent,
) -> (r: Result<(), xml::writer::Error>)
    requires
        !(class_of(*event) is EndDocument),
    ensures
        r is Ok <==> accepts(written(*old(sink)), Written::Copied(*event)),
        r is Ok ==> written(*final(sink)) == written(*old(sink)).push(Written::Copied(*event)),
{
    match event.as_writer_event() {
        Some(e) => sink.write(e),
        None => Ok(()),
    }
}

/// `write` of `xml::writer::EventWriter` on a generated event: a start tag
/// with its attributes in their order, an end tag for the element that is
/// open, or character data.
#[verifier::external_body]
pub(crate) fn write_event(sink: &mut xml::writer::EventWriter<Vec<u8>>, event: &Event) -> (r:
    Result<(), xml::writer::Error>)
    ensures
        r is Ok <==> accepts(written(*old(sink)), Written::Made(event@)),
        r is Ok ==> written(*final(sink)) == written(*old(sink)).push(Written::Made(event@)),
{
    match event {
        Event::StartElement { name, attributes } => {
            let mut start = xml::writer::XmlEvent::start_element(name.as_str());
            for a in attributes.iter() {
                start = start.attr(a.name.as_str(), a.value.as_str());
            }
            sink.write(start)
        },
        Event::EndElement => sink.write(xml::writer::XmlEvent::end_element()),
        Event::Characters(text) => sink.write(xml::writer::XmlEvent::characters(text.as_str())),
    }
}

/// `into_inner` of `xml::writer::EventWriter`: the bytes put out so far.
#[verifier::external_body]
pub(crate) fn into_bytes(sink: xml::writer::EventWriter<Vec<u8>>) -> (bytes: Vec<u8>)
    ensures
        bytes@ == rendered(written(sink)),
{
    sink.into_inner()
}

/// The text of an `xml::writer::Error`, by `to_string`. Nothing is claimed
/// of it.
#[verifier::external_body]
pub(crate) fn sink_error_text(error: &xml::writer::Error) -> (message: String) {
    error.to_string()
}

// ============================================================================
// Rendering a plan
// ============================================================================

/// Why a plan could not be written.
#[derive(Debug, PartialEq, Eq)]
pub enum RenderError {
    /// The step at this place copies an event that the skeleton does not
    /// have, or the end of the document, which cannot be written.
    BadStep(usize),
    /// The XML writer refused the step at this place; with its message.
    Refused(usize, String),
}

/// How the writing of a plan ends.
pub enum RenderOutcome {
    /// Every step was written: what the writer was handed, in order.
    Done(Seq<Written>),
    /// The step at this place cannot be written.
    BadStep(int),
    /// The writer refused the step at this place.
    Refused(int),
}

/// What a step hands to the writer: none where it copies an event that the
/// skeleton does not have, or the end of the document.
pub open spec fn step_item(events: Seq<xml::reader::XmlEvent>, step: StepView) -> Option<Written> {
    match step {
        StepView::Copy(index) => if 0 <= index < events.len() && !(class_of(events[index])
            is EndDocument) {
            Some(Written::Copied(events[index]))
        } else {
            None
        },
        StepView::Emit(event) => Some(Written::Made(event)),
    }
}

/// How the writing of `steps` ends: the steps are written in order, and the
/// first one that cannot be written, or that the writer refuses, ends it.
pub open spec fn render_outcome(
    events: Seq<xml::reader::XmlEvent>,
    steps: Seq<StepView>,
) -> RenderOutcome
    decreases steps.len(),
{
    if steps.len() == 0 {
        RenderOutcome::Done(Seq::empty())
    } else {
        match render_outcome(events, steps.drop_last()) {
            RenderOutcome::Done(before) => match step_item(events, steps.last()) {
                None => RenderOutcome::BadStep(steps.len() - 1),
                Some(item) => if accepts(before, item) {
                    RenderOutcome::Done(before.push(item))
                } else {
                    RenderOutcome::Refused(steps.len() - 1)
                },
            },
            failed => failed,
        }
    }
}

/// A failure among the first `k` steps is the failure of them all.
pub proof fn lemma_render_failure_stays(
    events: Seq<xml::reader::XmlEvent>,
    steps: Seq<StepView>,
    k: int,
)
    requires
        0 <= k <= steps.len(),
        !(render_outcome(events, steps.take(k)) is Done),
    ensures
        render_outcome(events, steps) == render_outcome(events, steps.take(k)),
    decreases steps.len() - k,
{
    if k < steps.len() {
        assert(steps.take(k + 1).drop_last() =~= steps.take(k));
        lemma_render_failure_stays(events, steps, k + 1);
    } else {
        assert(steps.take(k) =~= steps);
    }
}

/// The writing of steps that can all be taken ends with the last step or
/// with a step that the writer refuses.
pub proof fn lemma_copyable_steps_are_written(
    events: Seq<xml::reader::XmlEvent>,
    steps: Seq<StepView>,
)
    requires
        all_copyable(plan_classes(events), steps),
    ensures
        !(render_outcome(events, steps) is BadStep),
    decreases steps.len(),
{
    if steps.len() > 0 {
        assert(all_copyable(plan_classes(events), steps.drop_last())) by {
            assert forall|k: int| 0 <= k < steps.drop_last().len() implies copyable(
                plan_classes(events),
                #[trigger] steps.drop_last()[k],
            ) by {
                assert(steps.drop_last()[k] == steps[k]);
            }
        }
        lemma_copyable_steps_are_written(events, steps.drop_last());
        assert(copyable(plan_classes(events), steps[steps.len() - 1]));
    }
}

/// Writes the steps of `plan` as indented XML text, in order: a copy step
/// writes the skeleton event at its place, an emit step its own event.
/// Returns the bytes of the text, or the first step that could not be
/// written.
pub fn render(events: &Vec<xml::reader::XmlEvent>, plan: &Vec<Step>) -> (r: Result<
    Vec<u8>,
    RenderError,
>)
    ensures
        match render_outcome(events@, crate::skeleton::steps_view(plan@)) {
            RenderOutcome::Done(all) => r matches Ok(bytes) && bytes@ == rendered(all),
            RenderOutcome::BadStep(k) => r matches Err(RenderError::BadStep(at)) && at == k,
            RenderOutcome::Refused(k) => r matches Err(RenderError::Refused(at, _)) && at == k,
        },
{
    let ghost steps = crate::skeleton::steps_view(plan@);
    let mut sink = new_sink();
    let mut i: usize = 0;
    assert(steps.take(0) =~= Seq::<StepView>::empty());
    while i < plan.len()
        invariant
            i <= plan.len(),
            steps == crate::skeleton::steps_view(plan@),
            render_outcome(events@, steps.take(i as int)) == RenderOutcome::Done(written(sink)),
        decreases plan.len() - i,
    {
        proof {
            assert(steps.take(i as int + 1).drop_last() =~= steps.take(i as int));
            assert(steps.take(i as int + 1).last() == plan@[i as int]@);
        }
        let result = match &plan[i] {
            Step::Copy(index) => {
                if *index >= events.len() {
                    proof {
                        lemma_render_failure_stays(events@, steps, i as int + 1);
                    }
                    return Err(RenderError::BadStep(i));
                }
                let event = &events[*index];
                if let EventClass::EndDocument = classify(event) {
                    proof {
                        lemma_render_failure_stays(events@, steps, i as int + 1);
                    }
                    return Err(RenderError::BadStep(i));
                }
                write_copy(&mut sink, event)
            },
            Step::Emit(event) => write_event(&mut sink, event),
        };
        match result {
            Ok(()) => {},
            Err(error) => {
                proof {
                    lemma_render_failure_stays(events@, steps, i as int + 1);
                }
                return Err(RenderError::Refused(i, sink_error_text(&error)));
            },
        }
        i += 1;
    }
    assert(steps.take(plan.len() as int) =~= steps);
    Ok(into_bytes(sink))
}

} // verus!
