//! The parts of the `xml-rs` event writer that OPDS links are written with.
//! A start-element builder is described by what it holds: the element's
//! name, its attributes, and whether it binds namespaces. An event is
//! described by the element it starts or by being an element end. Writing
//! an event to a writer over a byte vector is named as a function of the
//! writer and of the event: the emitter's output and outcome depend on the
//! writer's configuration and state, the event, and nothing else (a byte
//! vector never fails as a sink).

use vstd::prelude::*;
use xml::writer::events::StartElementBuilder;
use xml::writer::XmlEvent;
use xml::EventWriter;

verus! {

#[verifier::external_type_specification]
#[verifier::external_body]
#[verifier::reject_recursive_types(W)]
pub struct ExEventWriter<W>(EventWriter<W>);

#[verifier::external_type_specification]
#[verifier::external_body]
pub struct ExStartElementBuilder<'a>(StartElementBuilder<'a>);

#[verifier::external_type_specification]
#[verifier::external_body]
pub struct ExXmlEvent<'a>(XmlEvent<'a>);

#[verifier::external_type_specification]
#[verifier::external_body]
pub struct ExEmitterError(xml::writer::Error);

/// What a start-element builder holds: the element's name as it was given,
/// its attributes as (qualified name, value) pairs in the order in which
/// they were added, and whether it binds no namespace.
pub struct ElementStart {
    pub name: Seq<char>,
    pub attributes: Seq<(Seq<char>, Seq<char>)>,
    pub plain_namespace: bool,
}

/// An event of the writer: the start of an element that binds no
/// namespace, with its name and attributes, or the end of the innermost
/// open element, with no name given.
pub enum XmlEventView {
    StartElement { name: Seq<char>, attributes: Seq<(Seq<char>, Seq<char>)> },
    EndElement,
}

/// What a start-element builder holds.
pub uninterp spec fn builder_view(builder: StartElementBuilder) -> ElementStart;

/// What an event holds, for the events that [`XmlEventView`] describes
/// (`None` for the others).
pub uninterp spec fn event_view(event: XmlEvent) -> Option<XmlEventView>;

/// The writer after writing the event, and the outcome of the write.
pub uninterp spec fn event_write(
    writer: EventWriter<Vec<u8>>,
    event: XmlEventView,
) -> (EventWriter<Vec<u8>>, Result<(), xml::writer::Error>);

/// The bytes that the sink of a writer holds.
pub uninterp spec fn written_bytes(writer: EventWriter<Vec<u8>>) -> Seq<u8>;

/// Calls `XmlEvent::start_element`: a builder for the start of an element
/// named `name`, with no attributes and no namespace yet (xml-rs builds
/// it with the converted name, an empty attribute vector and an empty
/// namespace).
#[verifier::external_body]
pub(crate) fn start_element<'a>(name: &'a str) -> (res: StartElementBuilder<'a>)
    ensures
        builder_view(res) == (ElementStart {
            name: name@,
            attributes: Seq::<(Seq<char>, Seq<char>)>::empty(),
            plain_namespace: true,
        }),
{
    XmlEvent::start_element(name)
}

/// Calls `StartElementBuilder::attr`: adds the attribute `name="value"` to
/// the element being built (xml-rs pushes it at the end of the
/// builder's attribute vector and changes nothing else).
#[verifier::external_body]
pub(crate) fn with_attribute<'a>(builder: StartElementBuilder<'a>, name: &'a str, value: &'a str) -> (res: StartElementBuilder<'a>)
    ensures
        builder_view(res) == (ElementStart {
            attributes: builder_view(builder).attributes.push((name@, value@)),
            ..builder_view(builder)
        }),
{
    builder.attr(name, value)
}

/// Converts a start-element builder into its event (`From` of `xml-rs`):
/// the event starts the builder's element with the builder's attributes
/// and namespace.
#[verifier::external_body]
pub(crate) fn start_element_event<'a>(builder: StartElementBuilder<'a>) -> (res: XmlEvent<'a>)
    ensures
        builder_view(builder).plain_namespace ==> event_view(res) == Some(
            XmlEventView::StartElement {
                name: builder_view(builder).name,
                attributes: builder_view(builder).attributes,
            },
        ),
{
    XmlEvent::from(builder)
}

/// Calls `XmlEvent::end_element`: the event that closes the innermost open
/// element, with no name given.
#[verifier::external_body]
pub(crate) fn end_element_event<'a>() -> (res: XmlEvent<'a>)
    ensures
        event_view(res) == Some(XmlEventView::EndElement),
{
    XmlEvent::from(XmlEvent::end_element())
}

/// Calls `EventWriter::write`: writes the event to the writer's sink. For
/// an event that [`XmlEventView`] describes, the new writer and the outcome
/// are [`event_write`] of the old writer and the event. Whatever the
/// outcome, the emitter only appends to a byte-vector sink (through
/// `Write::write_all` and `write!`), so what the sink held before stays in
/// front.
#[verifier::external_body]
pub(crate) fn write_event<'a>(writer: &mut EventWriter<Vec<u8>>, event: XmlEvent<'a>) -> (res: Result<(), xml::writer::Error>)
    ensures
        event_view(event) matches Some(v) ==> (*final(writer), res) == event_write(*old(writer), v),
        written_bytes(*old(writer)).is_prefix_of(written_bytes(*final(writer))),
{
    writer.write(event)
}

} // verus!
