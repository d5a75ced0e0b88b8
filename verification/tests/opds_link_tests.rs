use stump_core::opds_link::{link_write_result, LinkWriteError, OpdsEnumStr, OpdsLink, OpdsLinkRel, OpdsLinkType, OpdsStreamLink};
use xml::EventWriter;

fn pairs(attrs: &[stump_core::opds_link::LinkAttribute]) -> Vec<(String, String)> {
    attrs.iter().map(|a| (a.name.to_string(), a.value.clone())).collect()
}

#[test]
fn link_type_strings() {
    assert_eq!(OpdsLinkType::Acquisition.as_str(), "application/atom+xml;profile=opds-catalog;kind=acquisition");
    assert_eq!(OpdsLinkType::Image.as_str(), "image/jpeg");
    assert_eq!(OpdsLinkType::Navigation.as_str(), "application/atom+xml;profile=opds-catalog;kind=navigation");
    assert_eq!(OpdsLinkType::OctetStream.as_str(), "application/octet-stream");
    assert_eq!(OpdsLinkType::Zip.as_str(), "application/zip");
    assert_eq!(OpdsLinkType::Epub.as_str(), "application/epub+zip");
    assert_eq!(OpdsLinkType::Search.as_str(), "application/opensearchdescription+xml");
}

#[test]
fn link_rel_strings() {
    assert_eq!(OpdsLinkRel::ItSelf.as_str(), "self");
    assert_eq!(OpdsLinkRel::Subsection.as_str(), "subsection");
    assert_eq!(OpdsLinkRel::Acquisition.as_str(), "http://opds-spec.org/acquisition");
    assert_eq!(OpdsLinkRel::Start.as_str(), "start");
    assert_eq!(OpdsLinkRel::Next.as_str(), "next");
    assert_eq!(OpdsLinkRel::Previous.as_str(), "previous");
    assert_eq!(OpdsLinkRel::Thumbnail.as_str(), "http://opds-spec.org/image/thumbnail");
    assert_eq!(OpdsLinkRel::Image.as_str(), "http://opds-spec.org/image");
    assert_eq!(OpdsLinkRel::PageStream.as_str(), "http://vaemendis.net/opds-pse/stream");
    assert_eq!(OpdsLinkRel::Search.as_str(), "search");
}

#[test]
fn link_new_keeps_fields() {
    let link = OpdsLink::new(OpdsLinkType::Navigation, OpdsLinkRel::Start, "/opds/v1.2/catalog".to_string());
    assert!(matches!(link.link_type, OpdsLinkType::Navigation));
    assert!(matches!(link.rel, OpdsLinkRel::Start));
    assert_eq!(link.href, "/opds/v1.2/catalog");
}

#[test]
fn link_attributes_in_order() {
    let link = OpdsLink::new(OpdsLinkType::Image, OpdsLinkRel::Thumbnail, "/books/1/thumbnail".to_string());
    assert_eq!(
        pairs(&link.attributes()),
        vec![
            ("type".to_string(), "image/jpeg".to_string()),
            ("rel".to_string(), "http://opds-spec.org/image/thumbnail".to_string()),
            ("href".to_string(), "/books/1/thumbnail".to_string()),
        ]
    );
}

#[test]
fn link_write_emits_empty_link_element() {
    let link = OpdsLink::new(OpdsLinkType::Image, OpdsLinkRel::Thumbnail, "/books/1/thumbnail".to_string());
    let mut writer = EventWriter::new(Vec::new());
    link.write(&mut writer).unwrap();
    let out = String::from_utf8(writer.into_inner()).unwrap();
    assert_eq!(
        out,
        "<?xml version=\"1.0\" encoding=\"UTF-8\"?><link type=\"image/jpeg\" rel=\"http://opds-spec.org/image/thumbnail\" href=\"/books/1/thumbnail\" />"
    );
}

#[test]
fn link_write_escapes_href() {
    let link = OpdsLink::new(OpdsLinkType::Navigation, OpdsLinkRel::Next, "/feed?a=1&b=2".to_string());
    let mut writer = EventWriter::new(Vec::new());
    link.write(&mut writer).unwrap();
    let out = String::from_utf8(writer.into_inner()).unwrap();
    assert!(out.ends_with("href=\"/feed?a=1&amp;b=2\" />"));
}

#[test]
fn stream_link_new_keeps_fields() {
    let link = OpdsStreamLink::new("b1".to_string(), "309".to_string(), "image/jpeg".to_string(), None);
    assert_eq!(link.book_id, "b1");
    assert_eq!(link.count, "309");
    assert_eq!(link.mime_type, "image/jpeg");
    assert_eq!(link.last_read, None);
}

#[test]
fn stream_link_href_format() {
    let link = OpdsStreamLink::new("abc".to_string(), "12".to_string(), "image/png".to_string(), None);
    assert_eq!(link.href(), "/opds/v1.2/books/abc/pages/{pageNumber}?zero_based=true");
}

#[test]
fn stream_link_attributes_without_last_read() {
    let link = OpdsStreamLink::new("abc".to_string(), "12".to_string(), "image/png".to_string(), None);
    assert_eq!(
        pairs(&link.attributes()),
        vec![
            ("xmlns:wstxns1".to_string(), "http://vaemendis.net/opds-pse/ns".to_string()),
            ("href".to_string(), "/opds/v1.2/books/abc/pages/{pageNumber}?zero_based=true".to_string()),
            ("wstxns1:count".to_string(), "12".to_string()),
            ("type".to_string(), "image/png".to_string()),
            ("rel".to_string(), "http://vaemendis.net/opds-pse/stream".to_string()),
        ]
    );
}

#[test]
fn stream_link_attributes_with_last_read() {
    let link = OpdsStreamLink::new("abc".to_string(), "12".to_string(), "image/png".to_string(), Some("4".to_string()));
    let attrs = pairs(&link.attributes());
    assert_eq!(attrs.len(), 6);
    assert_eq!(attrs[5], ("wstxns1:lastRead".to_string(), "4".to_string()));
}

#[test]
fn stream_link_write_emits_attributes() {
    let link = OpdsStreamLink::new("abc".to_string(), "309".to_string(), "image/jpeg".to_string(), Some("7".to_string()));
    let mut writer = EventWriter::new(Vec::new());
    link.write(&mut writer).unwrap();
    let out = String::from_utf8(writer.into_inner()).unwrap();
    assert_eq!(
        out,
        "<?xml version=\"1.0\" encoding=\"UTF-8\"?><link xmlns:wstxns1=\"http://vaemendis.net/opds-pse/ns\" href=\"/opds/v1.2/books/abc/pages/{pageNumber}?zero_based=true\" wstxns1:count=\"309\" type=\"image/jpeg\" rel=\"http://vaemendis.net/opds-pse/stream\" wstxns1:lastRead=\"7\" />"
    );
}

#[test]
fn two_links_in_one_feed() {
    let mut writer = EventWriter::new(Vec::new());
    OpdsLink::new(OpdsLinkType::Navigation, OpdsLinkRel::ItSelf, "/a".to_string()).write(&mut writer).unwrap();
    OpdsLink::new(OpdsLinkType::Navigation, OpdsLinkRel::Start, "/b".to_string()).write(&mut writer).unwrap();
    let out = String::from_utf8(writer.into_inner()).unwrap();
    assert!(out.ends_with("<link type=\"application/atom+xml;profile=opds-catalog;kind=navigation\" rel=\"self\" href=\"/a\" /><link type=\"application/atom+xml;profile=opds-catalog;kind=navigation\" rel=\"start\" href=\"/b\" />"));
}

#[test]
fn link_write_keeps_earlier_output() {
    let mut writer = EventWriter::new(Vec::new());
    OpdsLink::new(OpdsLinkType::Zip, OpdsLinkRel::Acquisition, "/dl/1".to_string()).write(&mut writer).unwrap();
    let first = writer.inner_ref().clone();
    OpdsStreamLink::new("b".to_string(), "3".to_string(), "image/jpeg".to_string(), None).write(&mut writer).unwrap();
    let all = writer.into_inner();
    assert!(all.len() > first.len());
    assert_eq!(&all[..first.len()], &first[..]);
}

#[test]
fn link_write_result_maps_writer_outcomes() {
    assert!(link_write_result(Ok(()), Some(Ok(()))).is_ok());
    assert!(matches!(
        link_write_result(Err(xml::writer::Error::DocumentStartAlreadyEmitted), None),
        Err(LinkWriteError::Xml(xml::writer::Error::DocumentStartAlreadyEmitted))
    ));
    assert!(matches!(
        link_write_result(Ok(()), Some(Err(xml::writer::Error::LastElementNameNotAvailable))),
        Err(LinkWriteError::Xml(xml::writer::Error::LastElementNameNotAvailable))
    ));
}

