//! The extraction engine's mathematical model: tokens, the per-run tag
//! configuration, and the single-pass scan that folds a token stream into a
//! sequence of records.

use vstd::prelude::*;
use crate::text::eq_nocase;
use crate::record::ItemModel;
use crate::record::empty_item;

verus! {

/// One event handed over by the token source, reduced to plain values.
#[derive(Debug)]
pub enum XmlToken {
    /// An element opened; the payload is its raw tag name.
    Start(String),
    /// Character data between tags.
    Text(String),
    /// A CDATA section.
    CData(String),
    /// Any other event kind (end tag, comment, declaration, ...); the scan
    /// ignores these.
    Other,
    /// The end of the document.
    Eof,
}

/// The mathematical value of a token. The end-of-input marker never enters a
/// token sequence, so it folds into `Other`, which the scan ignores.
#[verifier::ext_equal]
pub enum TokenModel {
    Start(Seq<char>),
    Text(Seq<char>),
    CData(Seq<char>),
    Other,
}

impl View for XmlToken {
    type V = TokenModel;

    open spec fn view(&self) -> TokenModel {
        match self {
            XmlToken::Start(n) => TokenModel::Start(n@),
            XmlToken::Text(c) => TokenModel::Text(c@),
            XmlToken::CData(c) => TokenModel::CData(c@),
            XmlToken::Other => TokenModel::Other,
            XmlToken::Eof => TokenModel::Other,
        }
    }
}

/// The configured element names: the container and the six field tags.
#[verifier::ext_equal]
pub struct MappingModel {
    pub node: Seq<char>,
    pub title: Seq<char>,
    pub link: Seq<char>,
    pub author: Seq<char>,
    pub description: Seq<char>,
    pub guid: Seq<char>,
    pub publish: Seq<char>,
}

/// The six record fields, in dispatch priority order.
pub enum FieldKind {
    Title,
    Link,
    Author,
    Description,
    Guid,
    Publish,
}

/// Which field an active tag name selects: the first case-insensitive match
/// in the fixed priority order title, link, author, description, guid,
/// publish, or none.
pub open spec fn field_of(m: MappingModel, active: Seq<char>) -> Option<FieldKind> {
    if eq_nocase(active, m.title) {
        Some(FieldKind::Title)
    } else if eq_nocase(active, m.link) {
        Some(FieldKind::Link)
    } else if eq_nocase(active, m.author) {
        Some(FieldKind::Author)
    } else if eq_nocase(active, m.description) {
        Some(FieldKind::Description)
    } else if eq_nocase(active, m.guid) {
        Some(FieldKind::Guid)
    } else if eq_nocase(active, m.publish) {
        Some(FieldKind::Publish)
    } else {
        None
    }
}

/// Replace one field of a record.
pub open spec fn set_field(it: ItemModel, f: FieldKind, v: Seq<char>) -> ItemModel {
    match f {
        FieldKind::Title => ItemModel { title: v, ..it },
        FieldKind::Link => ItemModel { link: v, ..it },
        FieldKind::Author => ItemModel { author: v, ..it },
        FieldKind::Description => ItemModel { description: v, ..it },
        FieldKind::Guid => ItemModel { guid: v, ..it },
        FieldKind::Publish => ItemModel { publish: v, ..it },
    }
}

/// Route one text payload: if a record exists and the active tag selects a
/// field, the payload replaces that field of the last record; otherwise the
/// payload is dropped.
pub open spec fn write_text(
    items: Seq<ItemModel>,
    m: MappingModel,
    active: Seq<char>,
    c: Seq<char>,
) -> Seq<ItemModel> {
    if items.len() == 0 {
        items
    } else {
        match field_of(m, active) {
            Some(f) => items.update(
                items.len() - 1,
                set_field(items.last(), f, c),
            ),
            None => items,
        }
    }
}

/// The scan's state: the tag currently open, and the records completed or in
/// progress so far.
#[verifier::ext_equal]
pub struct ScanState {
    pub active: Seq<char>,
    pub items: Seq<ItemModel>,
}

/// The state a scan starts from: no active tag, no records.
pub open spec fn scan_init() -> ScanState {
    ScanState { active: Seq::empty(), items: Seq::empty() }
}

/// One step of the scan: a start tag becomes the active tag and, when it is
/// the container name, appends a fresh empty record; text and CDATA are
/// routed by the active tag; everything else is ignored.
pub open spec fn scan_step(m: MappingModel, st: ScanState, t: TokenModel) -> ScanState {
    match t {
        TokenModel::Start(n) => ScanState {
            active: n,
            items: if eq_nocase(n, m.node) {
                st.items.push(empty_item())
            } else {
                st.items
            },
        },
        TokenModel::Text(c) => ScanState {
            active: st.active,
            items: write_text(st.items, m, st.active, c),
        },
        TokenModel::CData(c) => ScanState {
            active: st.active,
            items: write_text(st.items, m, st.active, c),
        },
        TokenModel::Other => st,
    }
}

/// The scan state after the first `n` tokens.
pub open spec fn scan_upto(m: MappingModel, toks: Seq<TokenModel>, n: int) -> ScanState
    decreases n,
{
    if n <= 0 {
        scan_init()
    } else {
        scan_step(m, scan_upto(m, toks, n - 1), toks[n - 1])
    }
}

/// The records a full scan of `toks` produces, in encounter order.
pub open spec fn scan(m: MappingModel, toks: Seq<TokenModel>) -> Seq<ItemModel> {
    scan_upto(m, toks, toks.len() as int).items
}

/// Whether a token opens a container element under mapping `m`.
pub open spec fn is_container_start(m: MappingModel, t: TokenModel) -> bool {
    match t {
        TokenModel::Start(n) => eq_nocase(n, m.node),
        _ => false,
    }
}

/// How many of the first `n` tokens open a container element.
pub open spec fn count_containers_upto(m: MappingModel, toks: Seq<TokenModel>, n: int) -> int
    decreases n,
{
    if n <= 0 {
        0
    } else {
        count_containers_upto(m, toks, n - 1)
            + if is_container_start(m, toks[n - 1]) { 1int } else { 0int }
    }
}

/// How many tokens of `toks` open a container element.
pub open spec fn count_containers(m: MappingModel, toks: Seq<TokenModel>) -> int {
    count_containers_upto(m, toks, toks.len() as int)
}

proof fn lemma_scan_upto_len(m: MappingModel, toks: Seq<TokenModel>, n: int)
    requires
        n <= toks.len(),
    ensures
        scan_upto(m, toks, n).items.len() == count_containers_upto(m, toks, n),
    decreases n,
{
    if n > 0 {
        lemma_scan_upto_len(m, toks, n - 1);
    }
}

/// A scan yields exactly one record per container start token: a document
/// with K well-formed container elements produces K records.
pub proof fn lemma_record_count(m: MappingModel, toks: Seq<TokenModel>)
    ensures
        scan(m, toks).len() == count_containers(m, toks),
{
    lemma_scan_upto_len(m, toks, toks.len() as int);
}

/// The text payload a token carries, if it is a text or CDATA token.
pub open spec fn text_content(t: TokenModel) -> Option<Seq<char>> {
    match t {
        TokenModel::Text(c) => Some(c),
        TokenModel::CData(c) => Some(c),
        _ => None,
    }
}

/// Last write wins: two consecutive text or CDATA tokens leave exactly the
/// state the second alone would have produced; the first payload is
/// overwritten, never appended to.
pub proof fn lemma_last_write_wins(m: MappingModel, st: ScanState, t1: TokenModel, t2: TokenModel)
    requires
        text_content(t1) is Some,
        text_content(t2) is Some,
    ensures
        scan_step(m, scan_step(m, st, t1), t2) == scan_step(m, st, t2),
{
    let c1 = text_content(t1)->Some_0;
    let c2 = text_content(t2)->Some_0;
    let st1 = scan_step(m, st, t1);
    assert(st1.active == st.active);
    if st.items.len() == 0 {
        assert(scan_step(m, st1, t2) =~= scan_step(m, st, t2));
    } else {
        match field_of(m, st.active) {
            Some(f) => {
                let i = st.items.len() - 1;
                assert(st1.items =~= st.items.update(i, set_field(st.items.last(), f, c1)));
                assert(st1.items.len() == st.items.len());
                assert(st1.items.last() == set_field(st.items.last(), f, c1));
                assert(set_field(set_field(st.items.last(), f, c1), f, c2)
                    =~= set_field(st.items.last(), f, c2));
                assert(scan_step(m, st1, t2).items =~= scan_step(m, st, t2).items);
                assert(scan_step(m, st1, t2) =~= scan_step(m, st, t2));
            },
            None => {
                assert(scan_step(m, st1, t2) =~= scan_step(m, st, t2));
            },
        }
    }
}

/// Two tokens that differ at most in the ASCII case of a start tag's name.
pub open spec fn similar_token(a: TokenModel, b: TokenModel) -> bool {
    match (a, b) {
        (TokenModel::Start(n1), TokenModel::Start(n2)) => eq_nocase(n1, n2),
        (TokenModel::Text(c1), TokenModel::Text(c2)) => c1 == c2,
        (TokenModel::CData(c1), TokenModel::CData(c2)) => c1 == c2,
        (TokenModel::Other, TokenModel::Other) => true,
        _ => false,
    }
}

proof fn lemma_scan_upto_nocase(
    m: MappingModel,
    t1: Seq<TokenModel>,
    t2: Seq<TokenModel>,
    n: int,
)
    requires
        t1.len() == t2.len(),
        forall|i: int| 0 <= i < t1.len() ==> similar_token(#[trigger] t1[i], t2[i]),
        n <= t1.len(),
    ensures
        scan_upto(m, t1, n).items == scan_upto(m, t2, n).items,
        eq_nocase(scan_upto(m, t1, n).active, scan_upto(m, t2, n).active),
    decreases n,
{
    if n > 0 {
        lemma_scan_upto_nocase(m, t1, t2, n - 1);
        let s1 = scan_upto(m, t1, n - 1);
        let s2 = scan_upto(m, t2, n - 1);
        assert(similar_token(t1[n - 1], t2[n - 1]));
        assert(field_of(m, s1.active) == field_of(m, s2.active));
    }
}

/// Case-insensitivity: two token streams that differ only in the ASCII case
/// of their tag names yield the same records.
pub proof fn lemma_scan_case_insensitive(m: MappingModel, t1: Seq<TokenModel>, t2: Seq<TokenModel>)
    requires
        t1.len() == t2.len(),
        forall|i: int| 0 <= i < t1.len() ==> similar_token(#[trigger] t1[i], t2[i]),
    ensures
        scan(m, t1) == scan(m, t2),
{
    lemma_scan_upto_nocase(m, t1, t2, t1.len() as int);
}

proof fn lemma_untouched_upto(m: MappingModel, toks: Seq<TokenModel>, k: int, n: int)
    requires
        0 <= k,
        n <= toks.len(),
        forall|j: int|
            0 <= j < n && (#[trigger] text_content(toks[j])) is Some && scan_upto(
                m,
                toks,
                j,
            ).items.len() == k + 1 ==> field_of(m, scan_upto(m, toks, j).active) is None,
    ensures
        k < scan_upto(m, toks, n).items.len() ==> scan_upto(m, toks, n).items[k] == empty_item(),
    decreases n,
{
    if n > 0 {
        lemma_untouched_upto(m, toks, k, n - 1);
        let st = scan_upto(m, toks, n - 1);
        match toks[n - 1] {
            TokenModel::Start(nm) => {},
            TokenModel::Text(c) => {
                assert(text_content(toks[n - 1]) is Some);
            },
            TokenModel::CData(c) => {
                assert(text_content(toks[n - 1]) is Some);
            },
            TokenModel::Other => {},
        }
    }
}

/// A record whose container sees no recognized child field element stays
/// entirely empty: if, whenever record `k` is the current one, every text or
/// CDATA token arrives under an active tag that selects no field, then record
/// `k` of the result has all six fields empty.
pub proof fn lemma_untouched_record_stays_empty(m: MappingModel, toks: Seq<TokenModel>, k: int)
    requires
        0 <= k,
        forall|j: int|
            0 <= j < toks.len() && (#[trigger] text_content(toks[j])) is Some && scan_upto(
                m,
                toks,
                j,
            ).items.len() == k + 1 ==> field_of(m, scan_upto(m, toks, j).active) is None,
    ensures
        k < scan(m, toks).len() ==> scan(m, toks)[k] == empty_item(),
{
    lemma_untouched_upto(m, toks, k, toks.len() as int);
}

/// Dispatch tie-break: a tag that names the author field is routed to author,
/// whatever later fields (description, guid, publish) it may also name,
/// provided no earlier field (title, link) claims it.
pub proof fn lemma_dispatch_priority(m: MappingModel, active: Seq<char>)
    requires
        eq_nocase(active, m.author),
        !eq_nocase(active, m.title),
        !eq_nocase(active, m.link),
    ensures
        field_of(m, active) == Some(FieldKind::Author),
{
}

} // verus!
