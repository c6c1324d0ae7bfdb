//! The extraction engine driven over explicit token sequences.

use future_rss::RssParser;
use future_rss::XmlToken;

#[test]
fn extraction_over_explicit_tokens() {
    let parser = RssParser::new();
    let tokens = vec![
        XmlToken::Start("item".to_string()),
        XmlToken::Start("title".to_string()),
        XmlToken::Text("T".to_string()),
        XmlToken::Other,
        XmlToken::Start("guid".to_string()),
        XmlToken::CData("G".to_string()),
    ];
    let rss = parser.extract_records(&tokens);
    assert_eq!(rss.len(), 1);
    assert_eq!(rss[0].title, "T");
    assert_eq!(rss[0].guid, "G");
}

#[test]
fn text_before_any_container_is_ignored() {
    let parser = RssParser::new();
    let tokens = vec![
        XmlToken::Start("title".to_string()),
        XmlToken::Text("stray".to_string()),
        XmlToken::Start("item".to_string()),
    ];
    let rss = parser.extract_records(&tokens);
    assert_eq!(rss.len(), 1);
    assert_eq!(rss[0].title, "");
}

#[test]
fn active_tag_persists_until_next_start() {
    let parser = RssParser::new();
    let tokens = vec![
        XmlToken::Start("item".to_string()),
        XmlToken::Start("link".to_string()),
        XmlToken::Text("first".to_string()),
        XmlToken::Other,
        XmlToken::Text("second".to_string()),
    ];
    let rss = parser.extract_records(&tokens);
    assert_eq!(rss.len(), 1);
    assert_eq!(rss[0].link, "second");
}
