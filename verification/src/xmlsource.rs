//! The streaming token source: thin trusted wrappers around the XML
//! tokenizer, and the verified loop that drains it into plain tokens.
//!
//! Tokenizing a document is a function of its text alone, so the outcome is
//! given a name, `tokens_of`, and every contract downstream speaks of it.
//! Note the tokenizer's granularity: character data may arrive as several
//! text tokens, since an entity reference inside it is delivered as a
//! separate event kind that the scan ignores.

use vstd::prelude::*;
use crate::engine::TokenModel;
use crate::engine::XmlToken;

verus! {

#[verifier::external_type_specification]
#[verifier::external_body]
#[verifier::reject_recursive_types(R)]
pub struct ExReader<R>(quick_xml::Reader<R>);

/// What tokenizing a document yields, under this crate's reader
/// configuration: the full sequence of token values up to end of input, or
/// the diagnostic of the first tokenizer failure. The tokenizer reads the
/// text alone — no chance, time or environment — so its outcome is a
/// function of the text and may be named.
pub uninterp spec fn tokens_of(xml: Seq<char>) -> Result<Seq<TokenModel>, Seq<char>>;

/// The tokens a reader value has still to deliver before its stream ends.
pub uninterp spec fn reader_pending(r: quick_xml::Reader<&[u8]>) -> Seq<TokenModel>;

/// How a reader value's stream ends once `reader_pending` is exhausted:
/// end of input (`None`), or a failure with the given diagnostic.
pub uninterp spec fn reader_outcome(r: quick_xml::Reader<&[u8]>) -> Option<Seq<char>>;

/// Relies on `quick_xml::Reader::from_str` and its `Config`: a tokenizer
/// over the document text, set to trim surrounding whitespace from text
/// events, check end-tag names, and expand empty elements into start/end
/// pairs, which is the token-source policy the scan is specified against.
/// The fresh reader will deliver exactly the named tokenization of the
/// text: on success all its tokens and then end of input, on failure a
/// prefix and then the named diagnostic.
#[verifier::external_body]
fn new_reader<'a>(xml: &'a str) -> (r: quick_xml::Reader<&'a [u8]>)
    ensures
        tokens_of(xml@) matches Ok(toks) ==> {
            &&& reader_pending(r) == toks
            &&& reader_outcome(r) is None
        },
        tokens_of(xml@) matches Err(m) ==> reader_outcome(r) == Some(m),
{
    let mut r = quick_xml::Reader::from_str(xml);
    let c = r.config_mut();
    c.trim_text(true);
    c.check_end_names = true;
    c.expand_empty_elements = true;
    r
}

/// Relies on `quick_xml::Reader::read_event`: hands the next event over as a
/// plain token — a start tag by its raw name, text and CDATA by payload, end
/// of input as `Eof`, every other event kind as `Other` — and a tokenizer
/// failure as its diagnostic message. While tokens are pending, each call
/// delivers the next one; a drained stream then reports end of input forever
/// or fails once with the stream's diagnostic.
#[verifier::external_body]
fn next_event<'a>(r: &mut quick_xml::Reader<&'a [u8]>) -> (t: Result<XmlToken, String>)
    ensures
        reader_pending(*old(r)).len() > 0 ==> {
            &&& t matches Ok(tok) && !(tok is Eof) && tok@ == reader_pending(*old(r))[0]
            &&& reader_pending(*final(r)) == reader_pending(*old(r)).drop_first()
            &&& reader_outcome(*final(r)) == reader_outcome(*old(r))
        },
        reader_pending(*old(r)).len() == 0 && reader_outcome(*old(r)) is None ==> (t matches Ok(
            tok,
        ) && tok is Eof),
        reader_pending(*old(r)).len() == 0 ==> (reader_outcome(*old(r)) matches Some(m) ==> (t
            matches Err(e) && e@ == m)),
{
    match r.read_event() {
        Ok(quick_xml::events::Event::Start(e)) => {
            Ok(XmlToken::Start(e.name().into_inner().to_string()))
        },
        Ok(quick_xml::events::Event::Text(e)) => Ok(XmlToken::Text(e.into_inner().into_owned())),
        Ok(quick_xml::events::Event::CData(e)) => Ok(XmlToken::CData(e.into_inner().into_owned())),
        Ok(quick_xml::events::Event::Eof) => Ok(XmlToken::Eof),
        Ok(_) => Ok(XmlToken::Other),
        Err(e) => Err(e.to_string()),
    }
}

/// Drain the token source over `xml`: exactly the named tokenization — all
/// its tokens on success, its diagnostic on failure, never a partial result.
pub(crate) fn read_tokens(xml: &str) -> (r: Result<Vec<XmlToken>, String>)
    ensures
        match tokens_of(xml@) {
            Ok(toks) => r matches Ok(v) && v@.map_values(|t: XmlToken| t@) == toks,
            Err(m) => r matches Err(e) && e@ == m,
        },
{
    let mut reader = new_reader(xml);
    let mut tokens: Vec<XmlToken> = Vec::new();
    proof {
        if tokens_of(xml@) is Ok {
            assert(tokens@.map_values(|t: XmlToken| t@) + reader_pending(reader)
                =~= tokens_of(xml@)->Ok_0);
        }
    }
    loop
        invariant
            match tokens_of(xml@) {
                Ok(toks) => {
                    &&& reader_outcome(reader) is None
                    &&& tokens@.map_values(|t: XmlToken| t@) + reader_pending(reader) == toks
                },
                Err(m) => reader_outcome(reader) == Some(m),
            },
        decreases reader_pending(reader).len(),
    {
        let ghost pend0 = reader_pending(reader);
        let ghost out0 = reader_outcome(reader);
        let ghost done0 = tokens@.map_values(|t: XmlToken| t@);
        let next = next_event(&mut reader);
        match next {
            Result::Ok(t) => {
                match t {
                    XmlToken::Eof => {
                        proof {
                            assert(pend0.len() == 0);
                            if tokens_of(xml@) is Ok {
                                assert(done0 =~= tokens_of(xml@)->Ok_0);
                            }
                        }
                        return Ok(tokens);
                    },
                    _ => {
                        proof {
                            assert(pend0.len() > 0);
                        }
                        let ghost tv = t@;
                        tokens.push(t);
                        proof {
                            if tokens_of(xml@) is Ok {
                                assert(tokens@.map_values(|t: XmlToken| t@) =~= done0.push(tv));
                                assert(done0.push(pend0[0]) + pend0.drop_first() =~= done0
                                    + pend0);
                            }
                        }
                    },
                }
            },
            Result::Err(m) => {
                proof {
                    assert(pend0.len() == 0);
                    assert(out0 matches Some(d) && m@ == d);
                }
                return Err(m);
            },
        }
    }
}

} // verus!
