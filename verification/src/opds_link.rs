//! Links of OPDS catalog feeds: their media types, their relations, and the
//! `link` elements written for them.

use vstd::prelude::*;
use vstd::string::StringExecFns;
use xml::EventWriter;

use crate::xml_writer::{
    builder_view, end_element_event, event_write, start_element, start_element_event, with_attribute, write_event,
    written_bytes, XmlEventView,
};

verus! {

/// An OPDS enumeration whose variants stand for fixed strings.
pub trait OpdsEnumStr {
    /// The string that the value stands for.
    spec fn spec_str(&self) -> Seq<char>;

    /// The string that the value stands for.
    fn as_str(&self) -> (res: &'static str)
        ensures
            res@ == self.spec_str(),
    ;
}

/// The media type of the resource that a link points to.
#[derive(Debug)]
pub enum OpdsLinkType {
    Acquisition,
    Image,
    Navigation,
    OctetStream,
    Zip,
    Epub,
    Search,
}

impl OpdsEnumStr for OpdsLinkType {
    open spec fn spec_str(&self) -> Seq<char> {
        match self {
            OpdsLinkType::Acquisition => "application/atom+xml;profile=opds-catalog;kind=acquisition"@,
            OpdsLinkType::Image => "image/jpeg"@,
            OpdsLinkType::Navigation => "application/atom+xml;profile=opds-catalog;kind=navigation"@,
            OpdsLinkType::OctetStream => "application/octet-stream"@,
            OpdsLinkType::Zip => "application/zip"@,
            OpdsLinkType::Epub => "application/epub+zip"@,
            OpdsLinkType::Search => "application/opensearchdescription+xml"@,
        }
    }

    fn as_str(&self) -> (res: &'static str) {
        match self {
            OpdsLinkType::Acquisition => "application/atom+xml;profile=opds-catalog;kind=acquisition",
            OpdsLinkType::Image => "image/jpeg",
            OpdsLinkType::Navigation => "application/atom+xml;profile=opds-catalog;kind=navigation",
            OpdsLinkType::OctetStream => "application/octet-stream",
            OpdsLinkType::Zip => "application/zip",
            OpdsLinkType::Epub => "application/epub+zip",
            OpdsLinkType::Search => "application/opensearchdescription+xml",
        }
    }
}

/// The relation of a link to the feed that holds it.
#[derive(Debug)]
pub enum OpdsLinkRel {
    ItSelf,
    Subsection,
    Acquisition,
    Start,
    Next,
    Previous,
    Thumbnail,
    Image,
    PageStream,
    Search,
}

impl OpdsEnumStr for OpdsLinkRel {
    open spec fn spec_str(&self) -> Seq<char> {
        match self {
            OpdsLinkRel::ItSelf => "self"@,
            OpdsLinkRel::Subsection => "subsection"@,
            OpdsLinkRel::Acquisition => "http://opds-spec.org/acquisition"@,
            OpdsLinkRel::Start => "start"@,
            OpdsLinkRel::Next => "next"@,
            OpdsLinkRel::Previous => "previous"@,
            OpdsLinkRel::Thumbnail => "http://opds-spec.org/image/thumbnail"@,
            OpdsLinkRel::Image => "http://opds-spec.org/image"@,
            OpdsLinkRel::PageStream => "http://vaemendis.net/opds-pse/stream"@,
            OpdsLinkRel::Search => "search"@,
        }
    }

    fn as_str(&self) -> (res: &'static str) {
        match self {
            OpdsLinkRel::ItSelf => "self",
            OpdsLinkRel::Subsection => "subsection",
            OpdsLinkRel::Acquisition => "http://opds-spec.org/acquisition",
            OpdsLinkRel::Start => "start",
            OpdsLinkRel::Next => "next",
            OpdsLinkRel::Previous => "previous",
            OpdsLinkRel::Thumbnail => "http://opds-spec.org/image/thumbnail",
            OpdsLinkRel::Image => "http://opds-spec.org/image",
            OpdsLinkRel::PageStream => "http://vaemendis.net/opds-pse/stream",
            OpdsLinkRel::Search => "search",
        }
    }
}

/// An attribute of a `link` element.
pub struct LinkAttribute {
    pub name: &'static str,
    pub value: String,
}

/// The attributes as (name, value) pairs, in order.
pub open spec fn attribute_views(attrs: Seq<LinkAttribute>) -> Seq<(Seq<char>, Seq<char>)> {
    attrs.map_values(|a: LinkAttribute| (a.name@, a.value@))
}

/// An attribute with a fixed name.
fn attribute(name: &'static str, value: String) -> (res: LinkAttribute)
    ensures
        res.name@ == name@,
        res.value@ == value@,
{
    LinkAttribute { name, value }
}

/// The error of writing a link.
#[derive(Debug)]
pub enum LinkWriteError {
    /// The XML writer refused an event or its sink failed.
    Xml(xml::writer::Error),
}

/// What the sink of `writer` held before stays in front of what it holds
/// after.
pub open spec fn keeps_written(before: EventWriter<Vec<u8>>, after: EventWriter<Vec<u8>>) -> bool {
    written_bytes(before).is_prefix_of(written_bytes(after))
}

proof fn lemma_keeps_written_trans(a: EventWriter<Vec<u8>>, b: EventWriter<Vec<u8>>, c: EventWriter<Vec<u8>>)
    requires
        keeps_written(a, b),
        keeps_written(b, c),
    ensures
        keeps_written(a, c),
{
    let (x, y, z) = (written_bytes(a), written_bytes(b), written_bytes(c));
    assert(x =~= z.subrange(0, x.len() as int)) by {
        assert forall|i: int| 0 <= i < x.len() implies x[i] == z.subrange(0, x.len() as int)[i] by {
            assert(x[i] == y.subrange(0, x.len() as int)[i]);
            assert(y[i] == z.subrange(0, y.len() as int)[i]);
        }
    }
}

/// The result of writing a link from the results of its two writes: the
/// start of the element, then, when that succeeded, its end.
pub fn link_write_result(
    start: Result<(), xml::writer::Error>,
    end: Option<Result<(), xml::writer::Error>>,
) -> (res: Result<(), LinkWriteError>)
    requires
        start is Ok <==> end is Some,
    ensures
        start matches Err(e) ==> res == Err::<(), LinkWriteError>(LinkWriteError::Xml(e)),
        end matches Some(Err(e)) ==> res == Err::<(), LinkWriteError>(LinkWriteError::Xml(e)),
        end matches Some(Ok(())) ==> res is Ok,
{
    match start {
        Err(e) => Err(LinkWriteError::Xml(e)),
        Ok(()) => match end {
            Some(Err(e)) => Err(LinkWriteError::Xml(e)),
            _ => Ok(()),
        },
    }
}

/// The effect of writing an empty `link` element with the attributes
/// `attrs`: the start of the element is written to `before`; when that
/// succeeds, the end of the element is written after it. `after` is the
/// resulting writer and `res` the outcome, the first error if any.
pub open spec fn writes_link_element(
    before: EventWriter<Vec<u8>>,
    attrs: Seq<(Seq<char>, Seq<char>)>,
    after: EventWriter<Vec<u8>>,
    res: Result<(), LinkWriteError>,
) -> bool {
    let (w1, r1) = event_write(before, XmlEventView::StartElement { name: "link"@, attributes: attrs });
    match r1 {
        Err(e) => after == w1 && res == Err::<(), LinkWriteError>(LinkWriteError::Xml(e)),
        Ok(_) => {
            let (w2, r2) = event_write(w1, XmlEventView::EndElement);
            &&& after == w2
            &&& match r2 {
                Err(e) => res == Err::<(), LinkWriteError>(LinkWriteError::Xml(e)),
                Ok(_) => res is Ok,
            }
        },
    }
}

/// Writes an empty `link` element with the given attributes, in order:
/// its start, then, when that succeeded, its end. What the sink held
/// before stays in front.
fn write_link_element(writer: &mut EventWriter<Vec<u8>>, attrs: &Vec<LinkAttribute>) -> (res: Result<(), LinkWriteError>)
    ensures
        writes_link_element(*old(writer), attribute_views(attrs@), *final(writer), res),
        keeps_written(*old(writer), *final(writer)),
{
    let mut builder = start_element("link");
    let mut i: usize = 0;
    while i < attrs.len()
        invariant
            i <= attrs.len(),
            builder_view(builder).name == "link"@,
            builder_view(builder).plain_namespace,
            builder_view(builder).attributes == attribute_views(attrs@).take(i as int),
        decreases attrs.len() - i,
    {
        proof {
            assert(attribute_views(attrs@).take(i + 1) =~= attribute_views(attrs@).take(i as int).push(
                (attrs@[i as int].name@, attrs@[i as int].value@),
            ));
        }
        builder = with_attribute(builder, attrs[i].name, attrs[i].value.as_str());
        i = i + 1;
    }
    assert(builder_view(builder).attributes == attribute_views(attrs@)) by {
        assert(attribute_views(attrs@).take(attrs@.len() as int) =~= attribute_views(attrs@));
    }
    let ghost before = *writer;
    let start = write_event(writer, start_element_event(builder));
    let end = match start {
        Ok(()) => {
            let ghost middle = *writer;
            let r = write_event(writer, end_element_event());
            proof {
                lemma_keeps_written_trans(before, middle, *writer);
            }
            Some(r)
        },
        Err(_) => None,
    };
    link_write_result(start, end)
}

/// A link of an OPDS feed.
#[derive(Debug)]
pub struct OpdsLink {
    pub link_type: OpdsLinkType,
    pub rel: OpdsLinkRel,
    pub href: String,
}

impl OpdsLink {
    /// A link of the given type and relation to `href`.
    pub fn new(link_type: OpdsLinkType, rel: OpdsLinkRel, href: String) -> (res: Self)
        ensures
            res.link_type == link_type,
            res.rel == rel,
            res.href == href,
    {
        Self { link_type, rel, href }
    }

    /// The attributes of the link's element: its type, its relation and
    /// its target, in this order.
    pub open spec fn spec_attributes(&self) -> Seq<(Seq<char>, Seq<char>)> {
        seq![("type"@, self.link_type.spec_str()), ("rel"@, self.rel.spec_str()), ("href"@, self.href@)]
    }

    /// The attributes of the link's element: its type, its relation and
    /// its target, in this order.
    pub fn attributes(&self) -> (res: Vec<LinkAttribute>)
        ensures
            attribute_views(res@) == self.spec_attributes(),
            res@.len() == 3,
            res@[0].name@ == "type"@ && res@[0].value@ == self.link_type.spec_str(),
            res@[1].name@ == "rel"@ && res@[1].value@ == self.rel.spec_str(),
            res@[2].name@ == "href"@ && res@[2].value@ == self.href@,
    {
        let mut attrs: Vec<LinkAttribute> = Vec::new();
        attrs.push(attribute("type", String::from_str(self.link_type.as_str())));
        attrs.push(attribute("rel", String::from_str(self.rel.as_str())));
        attrs.push(attribute("href", self.href.clone()));
        assert(attribute_views(attrs@) =~= seq![
            ("type"@, self.link_type.spec_str()),
            ("rel"@, self.rel.spec_str()),
            ("href"@, self.href@),
        ]);
        attrs
    }

    /// Writes the link as an empty `link` element carrying
    /// [`OpdsLink::attributes`]: the start of the element, then its end when
    /// the start was written; the outcome is the first error, if any. What
    /// the sink held before stays in front.
    pub fn write(&self, writer: &mut EventWriter<Vec<u8>>) -> (res: Result<(), LinkWriteError>)
        ensures
            writes_link_element(*old(writer), self.spec_attributes(), *final(writer), res),
            keeps_written(*old(writer), *final(writer)),
    {
        let attrs = self.attributes();
        write_link_element(writer, &attrs)
    }
}

/// The target of a page-streaming link: the pages of book `book_id`.
pub open spec fn stream_href(book_id: Seq<char>) -> Seq<char> {
    "/opds/v1.2/books/"@ + book_id + "/pages/{pageNumber}?zero_based=true"@
}

/// A page-streaming link (OPDS-PSE): it lets a reader fetch the pages of a
/// book one by one.
#[derive(Debug)]
pub struct OpdsStreamLink {
    pub book_id: String,
    pub count: String,
    pub mime_type: String,
    pub last_read: Option<String>,
}

impl OpdsStreamLink {
    /// A streaming link to the `count` pages of book `book_id`, served as
    /// `mime_type`; `last_read` is the last page read, if any.
    pub fn new(book_id: String, count: String, mime_type: String, last_read: Option<String>) -> (res: Self)
        ensures
            res.book_id == book_id,
            res.count == count,
            res.mime_type == mime_type,
            res.last_read == last_read,
    {
        Self { book_id, count, mime_type, last_read }
    }

    /// The target of the link.
    pub fn href(&self) -> (res: String)
        ensures
            res@ == stream_href(self.book_id@),
    {
        let mut href = String::from_str("/opds/v1.2/books/");
        href.append(self.book_id.as_str());
        href.append("/pages/{pageNumber}?zero_based=true");
        href
    }

    /// The attributes of the link's element: the namespace of the
    /// streaming extension, the target, the page count, the media type and
    /// the relation, then the last page read when there is one.
    pub open spec fn spec_attributes(&self) -> Seq<(Seq<char>, Seq<char>)> {
        seq![
            ("xmlns:wstxns1"@, "http://vaemendis.net/opds-pse/ns"@),
            ("href"@, stream_href(self.book_id@)),
            ("wstxns1:count"@, self.count@),
            ("type"@, self.mime_type@),
            ("rel"@, "http://vaemendis.net/opds-pse/stream"@),
        ] + match self.last_read {
            Some(page) => seq![("wstxns1:lastRead"@, page@)],
            None => Seq::empty(),
        }
    }

    /// The attributes of the link's element: the namespace of the
    /// streaming extension, the target, the page count, the media type and
    /// the relation, then the last page read when there is one.
    pub fn attributes(&self) -> (res: Vec<LinkAttribute>)
        ensures
            attribute_views(res@) == self.spec_attributes(),
            res@.len() == if self.last_read is Some { 6int } else { 5int },
            res@[0].name@ == "xmlns:wstxns1"@ && res@[0].value@ == "http://vaemendis.net/opds-pse/ns"@,
            res@[1].name@ == "href"@ && res@[1].value@ == stream_href(self.book_id@),
            res@[2].name@ == "wstxns1:count"@ && res@[2].value@ == self.count@,
            res@[3].name@ == "type"@ && res@[3].value@ == self.mime_type@,
            res@[4].name@ == "rel"@ && res@[4].value@ == "http://vaemendis.net/opds-pse/stream"@,
            self.last_read matches Some(page) ==> res@[5].name@ == "wstxns1:lastRead"@ && res@[5].value@ == page@,
    {
        let mut attrs: Vec<LinkAttribute> = Vec::new();
        attrs.push(attribute("xmlns:wstxns1", String::from_str("http://vaemendis.net/opds-pse/ns")));
        attrs.push(attribute("href", self.href()));
        attrs.push(attribute("wstxns1:count", self.count.clone()));
        attrs.push(attribute("type", self.mime_type.clone()));
        attrs.push(attribute("rel", String::from_str("http://vaemendis.net/opds-pse/stream")));
        match &self.last_read {
            Some(page) => {
                attrs.push(attribute("wstxns1:lastRead", page.clone()));
            },
            None => {},
        }
        assert(attribute_views(attrs@) =~= seq![
            ("xmlns:wstxns1"@, "http://vaemendis.net/opds-pse/ns"@),
            ("href"@, stream_href(self.book_id@)),
            ("wstxns1:count"@, self.count@),
            ("type"@, self.mime_type@),
            ("rel"@, "http://vaemendis.net/opds-pse/stream"@),
        ] + match self.last_read {
            Some(page) => seq![("wstxns1:lastRead"@, page@)],
            None => Seq::empty(),
        });
        attrs
    }

    /// Writes the link as an empty `link` element carrying
    /// [`OpdsStreamLink::attributes`]: the start of the element, then its end
    /// when the start was written; the outcome is the first error, if any.
    /// What the sink held before stays in front.
    pub fn write(&self, writer: &mut EventWriter<Vec<u8>>) -> (res: Result<(), LinkWriteError>)
        ensures
            writes_link_element(*old(writer), self.spec_attributes(), *final(writer), res),
            keeps_written(*old(writer), *final(writer)),
    {
        let attrs = self.attributes();
        write_link_element(writer, &attrs)
    }
}

/// A streaming link with a last page read carries the attributes of the
/// same link without it, followed by exactly one more: the last page read.
pub proof fn law_last_read_adds_one_attribute(with_page: OpdsStreamLink, without: OpdsStreamLink)
    requires
        with_page.book_id@ == without.book_id@,
        with_page.count@ == without.count@,
        with_page.mime_type@ == without.mime_type@,
        with_page.last_read is Some,
        without.last_read is None,
    ensures
        with_page.spec_attributes() == without.spec_attributes().push(
            ("wstxns1:lastRead"@, with_page.last_read->0@),
        ),
{
    assert(with_page.spec_attributes() =~= without.spec_attributes().push(
        ("wstxns1:lastRead"@, with_page.last_read->0@),
    ));
}

/// The element written for a link carries the link's own type, relation
/// and target, in this order: the type attribute is the string of the
/// link's type, whatever the type.
pub proof fn law_link_element_carries_its_fields(link: OpdsLink)
    ensures
        link.spec_attributes().len() == 3,
        link.spec_attributes()[0] == ("type"@, link.link_type.spec_str()),
        link.spec_attributes()[1] == ("rel"@, link.rel.spec_str()),
        link.spec_attributes()[2] == ("href"@, link.href@),
{
}

/// The element written for a streaming link carries the link's own target,
/// page count and media type unchanged, whatever they are, and its last
/// page read exactly when it has one.
pub proof fn law_stream_element_carries_its_fields(link: OpdsStreamLink)
    ensures
        link.spec_attributes().len() == if link.last_read is Some { 6int } else { 5int },
        link.spec_attributes()[1] == ("href"@, "/opds/v1.2/books/"@ + link.book_id@ + "/pages/{pageNumber}?zero_based=true"@),
        link.spec_attributes()[2] == ("wstxns1:count"@, link.count@),
        link.spec_attributes()[3] == ("type"@, link.mime_type@),
        link.last_read matches Some(page) ==> link.spec_attributes()[5] == ("wstxns1:lastRead"@, page@),
{
}

/// Different link types stand for different media types: the type
/// attribute tells the type of a link.
pub proof fn law_link_type_strings_distinct(a: OpdsLinkType, b: OpdsLinkType)
    ensures
        a.spec_str() == b.spec_str() ==> a == b,
{
    reveal_strlit("application/atom+xml;profile=opds-catalog;kind=acquisition");
    reveal_strlit("image/jpeg");
    reveal_strlit("application/atom+xml;profile=opds-catalog;kind=navigation");
    reveal_strlit("application/octet-stream");
    reveal_strlit("application/zip");
    reveal_strlit("application/epub+zip");
    reveal_strlit("application/opensearchdescription+xml");
    if a.spec_str() == b.spec_str() {
        assert(a.spec_str().len() == b.spec_str().len());
    }
}

/// Different relations stand for different strings: the rel attribute
/// tells the relation of a link.
pub proof fn law_link_rel_strings_distinct(a: OpdsLinkRel, b: OpdsLinkRel)
    ensures
        a.spec_str() == b.spec_str() ==> a == b,
{
    reveal_strlit("self");
    reveal_strlit("subsection");
    reveal_strlit("http://opds-spec.org/acquisition");
    reveal_strlit("start");
    reveal_strlit("next");
    reveal_strlit("previous");
    reveal_strlit("http://opds-spec.org/image/thumbnail");
    reveal_strlit("http://opds-spec.org/image");
    reveal_strlit("http://vaemendis.net/opds-pse/stream");
    reveal_strlit("search");
    if a.spec_str() == b.spec_str() {
        assert(a.spec_str().len() == b.spec_str().len());
        assert(a.spec_str()[0] == b.spec_str()[0]);
        if a.spec_str().len() == 36 {
            assert(a.spec_str()[7] == b.spec_str()[7]);
        }
    }
}

} // verus!
