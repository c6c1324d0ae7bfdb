//! End-to-end extraction behaviour over real documents.

use future_rss::RssParser;
use future_rss::RssError;

#[test]
fn future_rss_builder() {
    let mut parser = RssParser::new();
    parser.set_xml(String::from(
        r#"<?xml version="1.0" encoding="UTF-8" ?>
                <rss version="2.0" xmlns:atom="http://www.w3.org/2005/Atom">
                    <item>
                        <title>Hey!</title>
                        <link>examples.com</link>
                        <description>hello.world!</description>
                        <author>MeteorCat</author>
                        <guid>unique key</guid>
                        <pubDate>2020-05-28 15:00:00</pubDate>
                    </item>
                </rss>
        "#,
    ));
    let rss = parser.parse_vec().unwrap();
    assert!(rss.len() > 0);
}

#[test]
fn default_mapping_example() {
    let mut parser = RssParser::new();
    parser.set_xml(String::from(
        "<rss><item><title>Hey!</title><link>examples.com</link>\
         <description>hello.world!</description><author>MeteorCat</author>\
         <guid>unique key</guid><pubDate>2020-05-28 15:00:00</pubDate></item></rss>",
    ));
    let rss = parser.parse_vec().unwrap();
    assert_eq!(rss.len(), 1);
    assert_eq!(rss[0].title, "Hey!");
    assert_eq!(rss[0].link, "examples.com");
    assert_eq!(rss[0].author, "MeteorCat");
    assert_eq!(rss[0].description, "hello.world!");
    assert_eq!(rss[0].guid, "unique key");
    assert_eq!(rss[0].publish, "2020-05-28 15:00:00");
}

#[test]
fn overridden_author_tag_leaves_author_empty() {
    let mut parser = RssParser::new();
    parser.author_tag = String::from("dc:creator");
    parser.set_xml(String::from(
        "<rss><item><title>Hey!</title><link>examples.com</link>\
         <description>hello.world!</description><author>MeteorCat</author>\
         <guid>unique key</guid><pubDate>2020-05-28 15:00:00</pubDate></item></rss>",
    ));
    let rss = parser.parse_vec().unwrap();
    assert_eq!(rss.len(), 1);
    assert_eq!(rss[0].author, "");
    assert_eq!(rss[0].title, "Hey!");
    assert_eq!(rss[0].link, "examples.com");
    assert_eq!(rss[0].description, "hello.world!");
    assert_eq!(rss[0].guid, "unique key");
    assert_eq!(rss[0].publish, "2020-05-28 15:00:00");
}

#[test]
fn one_record_per_container_in_order() {
    let mut parser = RssParser::new();
    parser.set_xml(String::from(
        "<rss><item><title>one</title></item><item><title>two</title></item>\
         <item><title>three</title></item></rss>",
    ));
    let rss = parser.parse_vec().unwrap();
    assert_eq!(rss.len(), 3);
    assert_eq!(rss[0].title, "one");
    assert_eq!(rss[1].title, "two");
    assert_eq!(rss[2].title, "three");
}

#[test]
fn unrecognized_children_leave_record_empty() {
    let mut parser = RssParser::new();
    parser.set_xml(String::from(
        "<rss><item><subject>x</subject><media>y</media></item></rss>",
    ));
    let rss = parser.parse_vec().unwrap();
    assert_eq!(rss.len(), 1);
    assert_eq!(rss[0].title, "");
    assert_eq!(rss[0].link, "");
    assert_eq!(rss[0].author, "");
    assert_eq!(rss[0].description, "");
    assert_eq!(rss[0].guid, "");
    assert_eq!(rss[0].publish, "");
}

#[test]
fn tag_matching_is_case_insensitive() {
    let mut parser = RssParser::new();
    parser.set_xml(String::from(
        "<rss><ITEM><Title>mixed</Title><LINK>l</LINK></ITEM></rss>",
    ));
    let rss = parser.parse_vec().unwrap();
    assert_eq!(rss.len(), 1);
    assert_eq!(rss[0].title, "mixed");
    assert_eq!(rss[0].link, "l");
}

#[test]
fn repeated_field_last_write_wins() {
    let mut parser = RssParser::new();
    parser.set_xml(String::from(
        "<rss><item><title>A</title><title>B</title></item></rss>",
    ));
    let rss = parser.parse_vec().unwrap();
    assert_eq!(rss.len(), 1);
    assert_eq!(rss[0].title, "B");
}

#[test]
fn mixed_text_and_cdata_second_token_wins() {
    let mut parser = RssParser::new();
    parser.set_xml(String::from(
        "<rss><item><title>A<![CDATA[B]]></title></item></rss>",
    ));
    let rss = parser.parse_vec().unwrap();
    assert_eq!(rss.len(), 1);
    assert_eq!(rss[0].title, "B");
}

#[test]
fn cdata_is_taken_verbatim() {
    let mut parser = RssParser::new();
    parser.set_xml(String::from(
        "<rss><item><description><![CDATA[<b>hi & bye</b>]]></description></item></rss>",
    ));
    let rss = parser.parse_vec().unwrap();
    assert_eq!(rss.len(), 1);
    assert_eq!(rss[0].description, "<b>hi & bye</b>");
}

#[test]
fn shared_tag_goes_to_author_not_description() {
    let mut parser = RssParser::new();
    parser.author_tag = String::from("X");
    parser.description_tag = String::from("X");
    parser.set_xml(String::from("<rss><item><X>V</X></item></rss>"));
    let rss = parser.parse_vec().unwrap();
    assert_eq!(rss.len(), 1);
    assert_eq!(rss[0].author, "V");
    assert_eq!(rss[0].description, "");
}

#[test]
fn empty_container_element_still_yields_record() {
    let mut parser = RssParser::new();
    parser.set_xml(String::from("<rss><item/><item><title>t</title></item></rss>"));
    let rss = parser.parse_vec().unwrap();
    assert_eq!(rss.len(), 2);
    assert_eq!(rss[0].title, "");
    assert_eq!(rss[1].title, "t");
}

#[test]
fn empty_document_yields_no_records() {
    let mut parser = RssParser::new();
    parser.set_xml(String::from("<rss></rss>"));
    let rss = parser.parse_vec().unwrap();
    assert_eq!(rss.len(), 0);
}

#[test]
fn malformed_document_fails_with_parse_error() {
    let mut parser = RssParser::new();
    parser.set_xml(String::from("<rss><item><title>A</oops></item></rss>"));
    let r = parser.parse_vec();
    assert!(matches!(r, Err(RssError::Parse(_))));
}

#[test]
fn malformed_document_fails_in_json_too() {
    let mut parser = RssParser::new();
    parser.set_xml(String::from("<rss><item><title>A</oops></item></rss>"));
    let r = parser.parse_json();
    assert!(matches!(r, Err(RssError::Parse(_))));
}

#[test]
fn text_outside_any_container_is_dropped() {
    let mut parser = RssParser::new();
    parser.set_xml(String::from(
        "<rss><title>channel title</title><item><title>t</title></item></rss>",
    ));
    let rss = parser.parse_vec().unwrap();
    assert_eq!(rss.len(), 1);
    assert_eq!(rss[0].title, "t");
}

#[test]
fn entity_reference_splits_text_tokens() {
    // The token source hands `a&amp;b` over as separate text tokens around
    // the reference; under overwrite semantics the last chunk survives.
    let mut parser = RssParser::new();
    parser.set_xml(String::from("<rss><item><title>a&amp;b</title></item></rss>"));
    let rss = parser.parse_vec().unwrap();
    assert_eq!(rss.len(), 1);
    assert_eq!(rss[0].title, "b");
}
