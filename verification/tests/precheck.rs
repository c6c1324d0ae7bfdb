//! The advisory pre-check, the parser builders, and the text utilities.

use future_rss::RssParser;
use future_rss::RssError;
use future_rss::str_contains_nocase;
use future_rss::str_eq_nocase;

#[test]
fn from_str_accepts_marked_document() {
    let doc = String::from(
        "<?xml version=\"1.0\"?><rss><item><title>t</title></item></rss>",
    );
    let parser = RssParser::from_str(doc.clone());
    assert!(parser.is_ok());
    assert_eq!(parser.unwrap().get_xml(), &doc);
}

#[test]
fn from_str_rejects_unmarked_text() {
    let r = RssParser::from_str(String::from("just some plain text"));
    assert!(matches!(r, Err(RssError::FormatRejected)));
}

#[test]
fn from_str_rejects_missing_rss_marker() {
    let r = RssParser::from_str(String::from("<?xml version=\"1.0\"?><feed></feed>"));
    assert!(matches!(r, Err(RssError::FormatRejected)));
}

#[test]
fn precheck_markers_are_case_insensitive() {
    let r = RssParser::from_str(String::from("<?XML?><RSS></RSS>"));
    assert!(r.is_ok());
    let r2 = RssParser::from_str(String::from("<?Xml?><Rss></Rss>"));
    assert!(r2.is_ok());
}

#[test]
fn check_xml_reports_both_markers() {
    let mut parser = RssParser::new();
    parser.set_xml(String::from("no markers here"));
    assert!(!parser.check_xml());
    parser.set_xml(String::from("xml only"));
    assert!(!parser.check_xml());
    parser.set_xml(String::from("rss only"));
    assert!(!parser.check_xml());
    parser.set_xml(String::from("xml and rss"));
    assert!(parser.check_xml());
}

#[test]
fn set_and_get_xml_round_trip() {
    let mut parser = RssParser::new();
    parser.set_xml(String::from("<doc/>"));
    assert_eq!(parser.get_xml(), "<doc/>");
}

#[test]
fn new_uses_conventional_tag_names() {
    let parser = RssParser::new();
    assert_eq!(parser.node_tag, "item");
    assert_eq!(parser.title_tag, "title");
    assert_eq!(parser.link_tag, "link");
    assert_eq!(parser.author_tag, "author");
    assert_eq!(parser.description_tag, "description");
    assert_eq!(parser.guid_tag, "guid");
    assert_eq!(parser.publish_tag, "pubDate");
    assert_eq!(parser.get_xml(), "");
}

#[test]
fn nocase_equality() {
    assert!(str_eq_nocase("AbC", "aBc"));
    assert!(str_eq_nocase("", ""));
    assert!(!str_eq_nocase("abc", "abd"));
    assert!(!str_eq_nocase("abc", "ab"));
    assert!(str_eq_nocase("dc:creator", "DC:CREATOR"));
}

#[test]
fn nocase_containment() {
    assert!(str_contains_nocase("a big XML document", "xml"));
    assert!(str_contains_nocase("rss", "rss"));
    assert!(!str_contains_nocase("xm l", "xml"));
    assert!(str_contains_nocase("anything", ""));
    assert!(!str_contains_nocase("", "x"));
}

#[test]
fn error_messages_describe_the_failure() {
    let mut parser = RssParser::new();
    parser.set_xml(String::from("<rss><item></nope></item></rss>"));
    match parser.parse_vec() {
        Err(e) => {
            assert!(!e.message().is_empty());
        },
        Ok(_) => panic!("malformed document was accepted"),
    }
}
