//! The parser: the per-run tag configuration, the document it scans, and the
//! verified extraction pass over the token stream.

use vstd::prelude::*;
use vstd::string::StringExecFns;
use crate::engine::FieldKind;
use crate::engine::MappingModel;
use crate::engine::ScanState;
use crate::engine::TokenModel;
use crate::engine::XmlToken;
use crate::engine::field_of;
use crate::engine::scan;
use crate::engine::scan_init;
use crate::engine::scan_step;
use crate::engine::scan_upto;
use crate::engine::set_field;
use crate::engine::write_text;
use crate::errors::RssError;
use crate::jsonfmt::json_of;
use crate::jsonfmt::records_to_json;
use crate::record::RssItem;
use crate::record::ItemModel;
use crate::text::contains_nocase;
use crate::text::str_contains_nocase;
use crate::text::str_eq_nocase;
use crate::xmlsource::read_tokens;
use crate::xmlsource::tokens_of;

verus! {

/// The tag names a fresh parser recognizes: the conventional RSS names.
pub open spec fn default_mapping() -> MappingModel {
    MappingModel {
        node: "item"@,
        title: "title"@,
        link: "link"@,
        author: "author"@,
        description: "description"@,
        guid: "guid"@,
        publish: "pubDate"@,
    }
}

/// The scanner and its configuration: the document text and the seven
/// recognized element names, each overridable by the caller.
#[derive(Debug)]
pub struct RssParser {
    pub xml: String,
    pub node_tag: String,
    pub title_tag: String,
    pub link_tag: String,
    pub author_tag: String,
    pub description_tag: String,
    pub guid_tag: String,
    pub publish_tag: String,
}

impl RssParser {
    /// The configured tag names as a mapping value.
    pub open spec fn mapping(&self) -> MappingModel {
        MappingModel {
            node: self.node_tag@,
            title: self.title_tag@,
            link: self.link_tag@,
            author: self.author_tag@,
            description: self.description_tag@,
            guid: self.guid_tag@,
            publish: self.publish_tag@,
        }
    }

    /// The document text currently held.
    pub open spec fn xml_view(&self) -> Seq<char> {
        self.xml@
    }

    /// A parser with no document and the default tag names.
    pub fn new() -> (r: Self)
        ensures
            r.xml_view() == Seq::<char>::empty(),
            r.mapping() == default_mapping(),
    {
        let r = RssParser {
            xml: String::new(),
            node_tag: String::from_str("item"),
            title_tag: String::from_str("title"),
            link_tag: String::from_str("link"),
            author_tag: String::from_str("author"),
            description_tag: String::from_str("description"),
            guid_tag: String::from_str("guid"),
            publish_tag: String::from_str("pubDate"),
        };
        proof {
            assert(r.mapping() =~= default_mapping());
        }
        r
    }

    /// The advisory pre-check: the text mentions both "xml" and "rss",
    /// ignoring ASCII case. A cheap sanity filter, not a validity guarantee.
    pub fn check_xml(&mut self) -> (r: bool)
        ensures
            *final(self) == *old(self),
            r == (contains_nocase(old(self).xml_view(), "xml"@)
                && contains_nocase(old(self).xml_view(), "rss"@)),
    {
        let has_xml = str_contains_nocase(self.xml.as_str(), "xml");
        let has_rss = str_contains_nocase(self.xml.as_str(), "rss");
        has_xml && has_rss
    }

    /// A parser with default tag names over the given text, provided the text
    /// passes the advisory pre-check; rejected otherwise.
    pub fn from_str(xml: String) -> (r: Result<Self, RssError>)
        ensures
            match r {
                Ok(p) => {
                    &&& p.xml_view() == xml@
                    &&& p.mapping() == default_mapping()
                    &&& contains_nocase(xml@, "xml"@)
                    &&& contains_nocase(xml@, "rss"@)
                },
                Err(e) => {
                    &&& e is FormatRejected
                    &&& !(contains_nocase(xml@, "xml"@) && contains_nocase(xml@, "rss"@))
                },
            },
    {
        let mut parser = Self::new();
        parser.xml = xml;
        if !parser.check_xml() {
            Err(RssError::FormatRejected)
        } else {
            Ok(parser)
        }
    }

    /// Replace the document text; the tag configuration is kept.
    pub fn set_xml(&mut self, xml: String)
        ensures
            final(self).xml_view() == xml@,
            final(self).mapping() == old(self).mapping(),
    {
        self.xml = xml;
    }

    /// The document text currently held.
    pub fn get_xml(&self) -> (r: &String)
        ensures
            r@ == self.xml_view(),
    {
        &self.xml
    }

    /// Route one text payload into the last record, by the active tag.
    fn assign_field(&self, nodes: &mut Vec<RssItem>, active: &String, c: &String)
        ensures
            final(nodes)@.map_values(|it: RssItem| it@) == write_text(
                old(nodes)@.map_values(|it: RssItem| it@),
                self.mapping(),
                active@,
                c@,
            ),
    {
        let ghost pre = old(nodes)@.map_values(|it: RssItem| it@);
        if nodes.len() == 0 {
            assert(final(nodes)@.map_values(|it: RssItem| it@) =~= pre);
            return;
        }
        let mut last = nodes.pop().unwrap();
        let ghost trunk = nodes@.map_values(|it: RssItem| it@);
        proof {
            assert(trunk =~= pre.drop_last());
            assert(last@ == pre.last());
        }
        let ghost sel = field_of(self.mapping(), active@);
        if str_eq_nocase(active.as_str(), self.title_tag.as_str()) {
            last.title = c.clone();
            assert(last@ =~= set_field(pre.last(), FieldKind::Title, c@));
        } else if str_eq_nocase(active.as_str(), self.link_tag.as_str()) {
            last.link = c.clone();
            assert(last@ =~= set_field(pre.last(), FieldKind::Link, c@));
        } else if str_eq_nocase(active.as_str(), self.author_tag.as_str()) {
            last.author = c.clone();
            assert(last@ =~= set_field(pre.last(), FieldKind::Author, c@));
        } else if str_eq_nocase(active.as_str(), self.description_tag.as_str()) {
            last.description = c.clone();
            assert(last@ =~= set_field(pre.last(), FieldKind::Description, c@));
        } else if str_eq_nocase(active.as_str(), self.guid_tag.as_str()) {
            last.guid = c.clone();
            assert(last@ =~= set_field(pre.last(), FieldKind::Guid, c@));
        } else if str_eq_nocase(active.as_str(), self.publish_tag.as_str()) {
            last.publish = c.clone();
            assert(last@ =~= set_field(pre.last(), FieldKind::Publish, c@));
        } else {
            assert(sel is None);
        }
        nodes.push(last);
        proof {
            if sel is Some {
                assert(final(nodes)@.map_values(|it: RssItem| it@) =~= pre.update(
                    pre.len() - 1,
                    set_field(pre.last(), sel->Some_0, c@),
                ));
            } else {
                assert(final(nodes)@.map_values(|it: RssItem| it@) =~= pre);
            }
        }
    }

    /// The extraction engine itself: fold the token stream, in order, into
    /// records — one per container start tag, text and CDATA routed into the
    /// last record by the active tag, everything else ignored.
    pub fn extract_records(&self, tokens: &Vec<XmlToken>) -> (r: Vec<RssItem>)
        ensures
            r@.map_values(|it: RssItem| it@) == scan(
                self.mapping(),
                tokens@.map_values(|t: XmlToken| t@),
            ),
    {
        let ghost m = self.mapping();
        let ghost toks = tokens@.map_values(|t: XmlToken| t@);
        let mut nodes: Vec<RssItem> = Vec::new();
        let mut active = String::new();
        let mut i: usize = 0;
        proof {
            assert(nodes@.map_values(|it: RssItem| it@) =~= scan_init().items);
        }
        while i < tokens.len()
            invariant
                i <= tokens.len(),
                toks == tokens@.map_values(|t: XmlToken| t@),
                m == self.mapping(),
                scan_upto(m, toks, i as int).active == active@,
                scan_upto(m, toks, i as int).items == nodes@.map_values(|it: RssItem| it@),
            decreases tokens.len() - i,
        {
            let ghost st = scan_upto(m, toks, i as int);
            proof {
                assert(scan_upto(m, toks, i + 1) == scan_step(m, st, toks[i as int]));
                assert(toks[i as int] == tokens@[i as int]@);
            }
            match &tokens[i] {
                XmlToken::Start(n) => {
                    active = n.clone();
                    if str_eq_nocase(active.as_str(), self.node_tag.as_str()) {
                        nodes.push(RssItem::default());
                    }
                    proof {
                        assert(nodes@.map_values(|it: RssItem| it@)
                            =~= scan_upto(m, toks, i + 1).items);
                    }
                },
                XmlToken::Text(c) => {
                    self.assign_field(&mut nodes, &active, c);
                },
                XmlToken::CData(c) => {
                    self.assign_field(&mut nodes, &active, c);
                },
                XmlToken::Other => {},
                XmlToken::Eof => {},
            }
            i += 1;
        }
        proof {
            assert(toks.len() == tokens@.len());
        }
        nodes
    }

    /// Scan the held document: tokenize it and extract the records, in
    /// document order. The records are exactly the scan of the document's
    /// named tokenization; a tokenizer failure aborts the scan with a parse
    /// error carrying its diagnostic, and no partial result.
    pub fn parse_vec(&mut self) -> (r: Result<Vec<RssItem>, RssError>)
        ensures
            *final(self) == *old(self),
            match tokens_of(old(self).xml@) {
                Ok(toks) => r matches Ok(v) && v@.map_values(|it: RssItem| it@) == scan(
                    old(self).mapping(),
                    toks,
                ),
                Err(m) => r matches Err(e) && e is Parse && e->Parse_0@ == m,
            },
    {
        let tokens = match read_tokens(self.xml.as_str()) {
            Ok(t) => t,
            Err(msg) => {
                return Err(RssError::Parse(msg));
            },
        };
        let items = self.extract_records(&tokens);
        proof {
            let toks = tokens@.map_values(|t: XmlToken| t@);
            assert(items@.map_values(|it: RssItem| it@) == scan(self.mapping(), toks));
        }
        Ok(items)
    }

    /// Scan the held document and render the records as a JSON array of
    /// flat string-keyed objects: exactly the rendering of the scan of the
    /// document's named tokenization. A tokenizer failure aborts with the
    /// same parse error `parse_vec` would give.
    pub fn parse_json(&mut self) -> (r: Result<String, RssError>)
        ensures
            *final(self) == *old(self),
            match tokens_of(old(self).xml@) {
                Ok(toks) => r matches Ok(s) && s@ == json_of(scan(old(self).mapping(), toks)),
                Err(m) => r matches Err(e) && e is Parse && e->Parse_0@ == m,
            },
    {
        match self.parse_vec() {
            Ok(items) => Ok(records_to_json(&items)),
            Err(e) => Err(e),
        }
    }
}

} // verus!
