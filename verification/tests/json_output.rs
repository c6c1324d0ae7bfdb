//! The JSON-array rendering, checked byte for byte and through an
//! independent JSON parser reading the output back.

use future_rss::RssItem;
use future_rss::RssParser;
use future_rss::records_to_json;

fn item(
    title: &str,
    link: &str,
    author: &str,
    description: &str,
    guid: &str,
    publish: &str,
) -> RssItem {
    RssItem {
        title: title.to_string(),
        link: link.to_string(),
        author: author.to_string(),
        description: description.to_string(),
        guid: guid.to_string(),
        publish: publish.to_string(),
    }
}

#[test]
fn exact_rendering_of_one_record() {
    let items = vec![item("a", "", "x\"y", "line\nbreak", "g\\h", "")];
    let s = records_to_json(&items);
    assert_eq!(
        s,
        "[{\"title\":\"a\",\"link\":\"\",\"author\":\"x\\\"y\",\
         \"description\":\"line\\u000abreak\",\"guid\":\"g\\\\h\",\"publish\":\"\"}]"
    );
}

#[test]
fn exact_rendering_of_empty_sequence() {
    let items: Vec<RssItem> = vec![];
    assert_eq!(records_to_json(&items), "[]");
}

#[test]
fn round_trip_through_independent_parser() {
    let originals = vec![
        item("Hey!", "examples.com", "MeteorCat", "hello.world!", "unique key", "2020-05-28 15:00:00"),
        item("", "", "", "", "", ""),
        item("quote \" back \\ slash", "a&b", "line\nfeed", "tab\there", "ctl\u{1}", "the end"),
    ];
    let s = records_to_json(&originals);
    let parsed = json::parse(&s).unwrap();
    assert!(parsed.is_array());
    assert_eq!(parsed.len(), originals.len());
    for (i, orig) in originals.iter().enumerate() {
        assert_eq!(parsed[i]["title"].as_str().unwrap(), orig.title);
        assert_eq!(parsed[i]["link"].as_str().unwrap(), orig.link);
        assert_eq!(parsed[i]["author"].as_str().unwrap(), orig.author);
        assert_eq!(parsed[i]["description"].as_str().unwrap(), orig.description);
        assert_eq!(parsed[i]["guid"].as_str().unwrap(), orig.guid);
        assert_eq!(parsed[i]["publish"].as_str().unwrap(), orig.publish);
    }
}

#[test]
fn parse_json_renders_extracted_records() {
    let mut parser = RssParser::new();
    parser.set_xml(String::from(
        "<rss><item><title>Hey!</title><link>examples.com</link>\
         <description>hello.world!</description><author>MeteorCat</author>\
         <guid>unique key</guid><pubDate>2020-05-28 15:00:00</pubDate></item></rss>",
    ));
    let s = parser.parse_json().unwrap();
    let parsed = json::parse(&s).unwrap();
    assert_eq!(parsed.len(), 1);
    assert_eq!(parsed[0]["title"].as_str().unwrap(), "Hey!");
    assert_eq!(parsed[0]["link"].as_str().unwrap(), "examples.com");
    assert_eq!(parsed[0]["author"].as_str().unwrap(), "MeteorCat");
    assert_eq!(parsed[0]["description"].as_str().unwrap(), "hello.world!");
    assert_eq!(parsed[0]["guid"].as_str().unwrap(), "unique key");
    assert_eq!(parsed[0]["publish"].as_str().unwrap(), "2020-05-28 15:00:00");
}
