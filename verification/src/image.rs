//! Embedded images.

use vstd::prelude::*;
use crate::fodt_xml_write::{FlatOdtXmlWrite, OptionalAttributes};
use crate::strings::{joined, option_string, str_eq};
use crate::xml_event::{
    attributes_view, events_view, lemma_well_nested_element, lemma_well_nested_text,
    push_attribute, push_event, well_nested, Attribute, AttributeView, Event, EventView,
};

verus! {

/// What an image is anchored to.
#[derive(Debug, Clone, Copy, PartialEq, Eq, Hash, Structural)]
pub enum ImageAnchor {
    /// In the line, like a character.
    AsChar,
    /// To the paragraph.
    Paragraph,
    /// To the page.
    Page,
}

impl ImageAnchor {
    /// The anchor's name in a document.
    pub open spec fn spec_name(self) -> Seq<char> {
        match self {
            ImageAnchor::AsChar => "as-char"@,
            ImageAnchor::Paragraph => "paragraph"@,
            ImageAnchor::Page => "page"@,
        }
    }

    /// The anchor that `name` names, if it names one.
    pub open spec fn spec_from_name(name: Seq<char>) -> Option<ImageAnchor> {
        if name == "as-char"@ {
            Some(ImageAnchor::AsChar)
        } else if name == "paragraph"@ {
            Some(ImageAnchor::Paragraph)
        } else if name == "page"@ {
            Some(ImageAnchor::Page)
        } else {
            None
        }
    }

    /// The anchor's name in a document.
    pub fn as_str(&self) -> (name: &'static str)
        ensures
            name@ == self.spec_name(),
    {
        match self {
            ImageAnchor::AsChar => "as-char",
            ImageAnchor::Paragraph => "paragraph",
            ImageAnchor::Page => "page",
        }
    }

    /// The anchor that `name` names, if it names one.
    pub fn from_name(name: &str) -> (r: Option<ImageAnchor>)
        ensures
            r == ImageAnchor::spec_from_name(name@),
    {
        if str_eq(name, "as-char") {
            Some(ImageAnchor::AsChar)
        } else if str_eq(name, "paragraph") {
            Some(ImageAnchor::Paragraph)
        } else if str_eq(name, "page") {
            Some(ImageAnchor::Page)
        } else {
            None
        }
    }

    /// Each anchor is found again by its name.
    pub proof fn lemma_name_round_trip(self)
        ensures
            ImageAnchor::spec_from_name(self.spec_name()) == Some(self),
    {
        reveal_strlit("as-char");
        reveal_strlit("paragraph");
        reveal_strlit("page");
        assert("as-char"@.len() == 7);
        assert("paragraph"@.len() == 9);
        assert("page"@.len() == 4);
    }
}

/// The MIME type that goes with a file extension.
pub open spec fn mime_type_of(extension: Option<Seq<char>>) -> Seq<char> {
    match extension {
        Some(e) => if e == "png"@ {
            "image/png"@
        } else if e == "jpg"@ || e == "jpeg"@ {
            "image/jpeg"@
        } else if e == "svg"@ {
            "image/svg+xml"@
        } else {
            "application/octet-stream"@
        },
        None => "application/octet-stream"@,
    }
}

/// The text of `data` in base 64, standard alphabet, padded.
pub uninterp spec fn base64_standard(data: Seq<u8>) -> Seq<char>;

/// `encode` of `base64::prelude::BASE64_STANDARD`: the bytes as text in base
/// 64. The result is taken for a function of the bytes, under the name
/// `base64_standard`; nothing more is claimed of it.
#[verifier::external_body]
fn base64_encode(data: &Vec<u8>) -> (text: String)
    ensures
        text@ == base64_standard(data@),
{
    base64::Engine::encode(&base64::prelude::BASE64_STANDARD, data)
}

/// An image held in the document itself.
pub struct Image {
    /// The extension of the file that the image came from, if it had one.
    pub extension: Option<String>,
    /// The width in centimetres, as a decimal number.
    pub width_cm: String,
    /// The height in centimetres, as a decimal number.
    pub height_cm: String,
    pub anchor: ImageAnchor,
    /// The bytes of the image file.
    pub data: Vec<u8>,
}

impl Image {
    /// The attributes of the frame: anchor, width and height.
    pub open spec fn spec_frame_attributes(&self) -> Seq<AttributeView> {
        seq![
            AttributeView { name: "text:anchor-type"@, value: self.anchor.spec_name() },
            AttributeView { name: "svg:width"@, value: self.width_cm@ + "cm"@ },
            AttributeView { name: "svg:height"@, value: self.height_cm@ + "cm"@ },
        ]
    }

    /// The attributes of the image element: the MIME type.
    pub open spec fn spec_image_attributes(&self) -> Seq<AttributeView> {
        seq![
            AttributeView {
                name: "draw:mime-type"@,
                value: mime_type_of(option_string(self.extension)),
            },
        ]
    }

    /// The bytes in base 64 inside an `office:binary-data` element.
    pub open spec fn spec_payload(&self) -> Seq<EventView> {
        seq![
            EventView::Start { name: "office:binary-data"@, attributes: Seq::empty() },
            EventView::Text(base64_standard(self.data@)),
            EventView::End,
        ]
    }

    /// A `draw:frame` around a `draw:image` around the payload.
    pub open spec fn spec_events(&self) -> Seq<EventView> {
        seq![EventView::Start { name: "draw:frame"@, attributes: self.spec_frame_attributes() }]
            + (seq![
            EventView::Start { name: "draw:image"@, attributes: self.spec_image_attributes() },
        ] + self.spec_payload() + seq![EventView::End]) + seq![EventView::End]
    }

    /// An image emits a well-formed fragment.
    pub proof fn lemma_well_nested(&self)
        ensures
            well_nested(self.spec_events()),
    {
        let text = seq![EventView::Text(base64_standard(self.data@))];
        lemma_well_nested_text(base64_standard(self.data@));
        lemma_well_nested_element("office:binary-data"@, Seq::empty(), text);
        assert(self.spec_payload() =~= seq![
            EventView::Start { name: "office:binary-data"@, attributes: Seq::empty() },
        ] + text + seq![EventView::End]);
        lemma_well_nested_element(
            "draw:image"@,
            self.spec_image_attributes(),
            self.spec_payload(),
        );
        lemma_well_nested_element(
            "draw:frame"@,
            self.spec_frame_attributes(),
            seq![
                EventView::Start { name: "draw:image"@, attributes: self.spec_image_attributes() },
            ] + self.spec_payload() + seq![EventView::End],
        );
    }

    /// An image of the given size and anchor, from the bytes of its file and
    /// the file's extension.
    pub fn new(
        extension: Option<String>,
        width_cm: String,
        height_cm: String,
        anchor: ImageAnchor,
        data: Vec<u8>,
    ) -> (r: Image)
        ensures
            r.extension == extension,
            r.width_cm == width_cm,
            r.height_cm == height_cm,
            r.anchor == anchor,
            r.data == data,
    {
        Image { extension, width_cm, height_cm, anchor, data }
    }

    /// The MIME type of the image, by the extension of its file.
    pub fn mime_type(&self) -> (mime: &'static str)
        ensures
            mime@ == mime_type_of(option_string(self.extension)),
    {
        match &self.extension {
            Some(e) => {
                let e = e.as_str();
                if str_eq(e, "png") {
                    "image/png"
                } else if str_eq(e, "jpg") || str_eq(e, "jpeg") {
                    "image/jpeg"
                } else if str_eq(e, "svg") {
                    "image/svg+xml"
                } else {
                    "application/octet-stream"
                }
            },
            None => "application/octet-stream",
        }
    }
}

impl FlatOdtXmlWrite for Image {
    open spec fn events(&self) -> Seq<EventView> {
        self.spec_events()
    }

    open spec fn optional_attributes(&self) -> OptionalAttributes {
        Seq::empty()
    }

    proof fn lemma_events_well_nested(&self) {
        self.lemma_well_nested();
    }

    fn write_flat_odt_xml(&self, writer: &mut Vec<Event>) {
        let base64_data = base64_encode(&self.data);
        let width = joined(self.width_cm.as_str(), "cm");
        let height = joined(self.height_cm.as_str(), "cm");

        let mut frame: Vec<Attribute> = Vec::new();
        push_attribute(&mut frame, "text:anchor-type", self.anchor.as_str());
        push_attribute(&mut frame, "svg:width", width.as_str());
        push_attribute(&mut frame, "svg:height", height.as_str());
        assert(attributes_view(frame@) =~= self.spec_frame_attributes());
        push_event(writer, Event::start("draw:frame", frame));

        let mut image: Vec<Attribute> = Vec::new();
        push_attribute(&mut image, "draw:mime-type", self.mime_type());
        assert(attributes_view(image@) =~= self.spec_image_attributes());
        push_event(writer, Event::start("draw:image", image));

        let none: Vec<Attribute> = Vec::new();
        assert(attributes_view(none@) =~= Seq::empty());
        push_event(writer, Event::start("office:binary-data", none));
        push_event(writer, Event::characters(base64_data.as_str()));
        push_event(writer, Event::EndElement);

        push_event(writer, Event::EndElement);
        push_event(writer, Event::EndElement);
        assert(events_view(writer@) =~= events_view(old(writer)@) + self.spec_events());
    }

    fn optional_string_attributes(&self) -> (list: Vec<(&'static str, Option<&str>)>) {
        let list: Vec<(&'static str, Option<&str>)> = Vec::new();
        assert(crate::fodt_xml_write::optional_view(list@) =~= Seq::empty());
        list
    }
}

} // verus!
