//! Rendering record sequences as a JSON array of flat string-keyed objects,
//! against an exact character-level specification.

use vstd::prelude::*;
use vstd::string::StringExecFns;
use crate::record::ItemModel;
use crate::record::RssItem;

verus! {

/// The hexadecimal digit for a value below sixteen, lower case.
pub open spec fn hex_digit(d: int) -> char {
    if d < 10 {
        ('0' as u32 + d) as char
    } else {
        ('a' as u32 + (d - 10)) as char
    }
}

/// How one character appears inside a JSON string literal: quote and
/// backslash get a backslash escape, control characters a `\u00XX` escape,
/// everything else stands for itself.
pub open spec fn escape_char(c: char) -> Seq<char> {
    if c == '"' {
        seq!['\\', '"']
    } else if c == '\\' {
        seq!['\\', '\\']
    } else if (c as u32) < 32 {
        seq!['\\', 'u', '0', '0', hex_digit(c as u32 as int / 16), hex_digit(c as u32 as int % 16)]
    } else {
        seq![c]
    }
}

/// A text escaped for use inside a JSON string literal.
pub open spec fn escape(s: Seq<char>) -> Seq<char>
    decreases s.len(),
{
    if s.len() == 0 {
        Seq::empty()
    } else {
        escape_char(s[0]) + escape(s.drop_first())
    }
}

/// A JSON string literal: the escaped text between double quotes.
pub open spec fn quoted(s: Seq<char>) -> Seq<char> {
    seq!['"'] + escape(s) + seq!['"']
}

/// One record as a JSON object with the six contractual keys.
pub open spec fn json_of_item(it: ItemModel) -> Seq<char> {
    "{\"title\":"@ + (quoted(it.title) + (",\"link\":"@ + (quoted(it.link) + (",\"author\":"@
        + (quoted(it.author) + (",\"description\":"@ + (quoted(it.description) + (",\"guid\":"@
        + (quoted(it.guid) + (",\"publish\":"@ + (quoted(it.publish) + "}"@)))))))))))
}

/// The records as comma-separated JSON objects.
pub open spec fn json_of_items(items: Seq<ItemModel>) -> Seq<char>
    decreases items.len(),
{
    if items.len() == 0 {
        Seq::empty()
    } else if items.len() == 1 {
        json_of_item(items[0])
    } else {
        json_of_item(items[0]) + (seq![','] + json_of_items(items.drop_first()))
    }
}

/// The whole output: the records as a JSON array, in order.
pub open spec fn json_of(items: Seq<ItemModel>) -> Seq<char> {
    seq!['['] + json_of_items(items) + seq![']']
}

/// Appending one record to the sequence appends its object, behind a comma
/// unless it is the first.
proof fn lemma_json_of_items_push(items: Seq<ItemModel>, it: ItemModel)
    ensures
        json_of_items(items.push(it)) == if items.len() == 0 {
            json_of_item(it)
        } else {
            json_of_items(items) + seq![','] + json_of_item(it)
        },
    decreases items.len(),
{
    let p = items.push(it);
    if items.len() == 0 {
        assert(p.len() == 1);
        assert(p[0] == it);
    } else {
        assert(p.len() >= 2);
        assert(p[0] == items[0]);
        assert(p.drop_first() =~= items.drop_first().push(it));
        lemma_json_of_items_push(items.drop_first(), it);
        if items.len() == 1 {
            assert(json_of_items(items) == json_of_item(items[0]));
            assert(json_of_items(p) =~= json_of_items(items) + seq![','] + json_of_item(it));
        } else {
            assert(json_of_items(p) =~= json_of_items(items) + seq![','] + json_of_item(it));
        }
    }
}

proof fn lemma_append_cancel(x: Seq<char>, y: Seq<char>, z: Seq<char>)
    requires
        x + y == x + z,
    ensures
        y == z,
{
    assert((x + y).len() == x.len() + y.len());
    assert((x + z).len() == x.len() + z.len());
    assert forall|i: int| 0 <= i < y.len() implies y[i] == z[i] by {
        assert((x + y)[x.len() + i] == y[i]);
        assert((x + z)[x.len() + i] == z[i]);
    }
    assert(y =~= z);
}

proof fn lemma_assoc(p: Seq<char>, q: Seq<char>, r: Seq<char>)
    ensures
        (p + q) + r == p + (q + r),
{
    assert((p + q) + r =~= p + (q + r));
}

proof fn lemma_hex_digit_inj(d1: int, d2: int)
    requires
        0 <= d1 < 16,
        0 <= d2 < 16,
        hex_digit(d1) == hex_digit(d2),
    ensures
        d1 == d2,
{
    assert(hex_digit(d1) as u32 == hex_digit(d2) as u32);
}

proof fn lemma_escape_char_head(c: char)
    ensures
        escape_char(c).len() >= 1,
        escape_char(c)[0] != '"',
        (c == '"' || c == '\\' || (c as u32) < 32) ==> escape_char(c)[0] == '\\',
        !(c == '"' || c == '\\' || (c as u32) < 32) ==> escape_char(c)[0] == c,
{
}

proof fn lemma_control_char_eq(ca: char, cb: char)
    requires
        (ca as u32) < 32,
        (cb as u32) < 32,
        hex_digit(ca as u32 as int / 16) == hex_digit(cb as u32 as int / 16),
        hex_digit(ca as u32 as int % 16) == hex_digit(cb as u32 as int % 16),
    ensures
        ca == cb,
{
    let ua = ca as u32;
    let ub = cb as u32;
    lemma_hex_digit_inj(ua as int / 16, ub as int / 16);
    lemma_hex_digit_inj(ua as int % 16, ub as int % 16);
    vstd::arithmetic::div_mod::lemma_fundamental_div_mod(ua as int, 16);
    vstd::arithmetic::div_mod::lemma_fundamental_div_mod(ub as int, 16);
    assert(ua == ub);
}

proof fn lemma_escaped_prefix_free(a: Seq<char>, b: Seq<char>, r1: Seq<char>, r2: Seq<char>)
    requires
        escape(a) + (seq!['"'] + r1) == escape(b) + (seq!['"'] + r2),
    ensures
        a == b,
        r1 == r2,
    decreases a.len(),
{
    let la = escape(a) + (seq!['"'] + r1);
    let lb = escape(b) + (seq!['"'] + r2);
    if a.len() == 0 && b.len() == 0 {
        assert(escape(a) =~= Seq::<char>::empty());
        assert(escape(b) =~= Seq::<char>::empty());
        assert(la =~= seq!['"'] + r1);
        assert(lb =~= seq!['"'] + r2);
        lemma_append_cancel(seq!['"'], r1, r2);
        assert(a =~= b);
    } else if a.len() == 0 {
        assert(escape(a) =~= Seq::<char>::empty());
        assert(la =~= seq!['"'] + r1);
        assert(la[0] == '"');
        lemma_escape_char_head(b[0]);
        assert(escape(b) == escape_char(b[0]) + escape(b.drop_first()));
        assert(lb[0] == escape_char(b[0])[0]);
        assert(false);
    } else if b.len() == 0 {
        assert(escape(b) =~= Seq::<char>::empty());
        assert(lb =~= seq!['"'] + r2);
        assert(lb[0] == '"');
        lemma_escape_char_head(a[0]);
        assert(escape(a) == escape_char(a[0]) + escape(a.drop_first()));
        assert(la[0] == escape_char(a[0])[0]);
        assert(false);
    } else {
        let ca = a[0];
        let cb = b[0];
        let ea = escape_char(ca);
        let eb = escape_char(cb);
        lemma_escape_char_head(ca);
        lemma_escape_char_head(cb);
        let ta = escape(a.drop_first()) + (seq!['"'] + r1);
        let tb = escape(b.drop_first()) + (seq!['"'] + r2);
        assert(escape(a) == ea + escape(a.drop_first()));
        assert(escape(b) == eb + escape(b.drop_first()));
        assert(la =~= ea + ta);
        assert(lb =~= eb + tb);
        let sa = ca == '"' || ca == '\\' || (ca as u32) < 32;
        let sb = cb == '"' || cb == '\\' || (cb as u32) < 32;
        if !sa && !sb {
            assert(la[0] == ca);
            assert(lb[0] == cb);
            assert(ca == cb);
        } else if sa != sb {
            // One escape starts with a backslash, the other with a plain
            // character, which cannot itself be a backslash.
            assert(la[0] == lb[0]);
            assert(false);
        } else {
            // Both escapes start with a backslash; the next character
            // separates the three escape shapes.
            assert(ea.len() >= 2);
            assert(eb.len() >= 2);
            assert(la[1] == ea[1]);
            assert(lb[1] == eb[1]);
            assert(ea[1] == eb[1]);
            if ca == '"' || cb == '"' {
                assert(ca == '"' && cb == '"');
            } else if ca == '\\' || cb == '\\' {
                assert(ca == '\\' && cb == '\\');
            } else {
                assert(ea.len() == 6 && eb.len() == 6);
                assert(la[4] == ea[4] && la[5] == ea[5]);
                assert(lb[4] == eb[4] && lb[5] == eb[5]);
                assert(hex_digit(ca as u32 as int / 16) == hex_digit(cb as u32 as int / 16));
                assert(hex_digit(ca as u32 as int % 16) == hex_digit(cb as u32 as int % 16));
                lemma_control_char_eq(ca, cb);
            }
        }
        assert(ca == cb);
        assert(ea == eb);
        lemma_append_cancel(ea, ta, tb);
        lemma_escaped_prefix_free(a.drop_first(), b.drop_first(), r1, r2);
        assert(a =~= b) by {
            assert(forall|i: int| 1 <= i < a.len() ==> #[trigger] a[i] == a.drop_first()[i - 1]);
            assert(forall|i: int| 1 <= i < b.len() ==> #[trigger] b[i] == b.drop_first()[i - 1]);
        }
    }
}

proof fn lemma_quoted_inj(a: Seq<char>, b: Seq<char>, u1: Seq<char>, u2: Seq<char>)
    requires
        quoted(a) + u1 == quoted(b) + u2,
    ensures
        a == b,
        u1 == u2,
{
    assert(quoted(a) + u1 =~= seq!['"'] + (escape(a) + (seq!['"'] + u1)));
    assert(quoted(b) + u2 =~= seq!['"'] + (escape(b) + (seq!['"'] + u2)));
    lemma_append_cancel(seq!['"'], escape(a) + (seq!['"'] + u1), escape(b) + (seq!['"'] + u2));
    lemma_escaped_prefix_free(a, b, u1, u2);
}

proof fn lemma_item_inj(x: ItemModel, y: ItemModel, r1: Seq<char>, r2: Seq<char>)
    requires
        json_of_item(x) + r1 == json_of_item(y) + r2,
    ensures
        x == y,
        r1 == r2,
{
    let t1 = "{\"title\":"@;
    let t2 = ",\"link\":"@;
    let t3 = ",\"author\":"@;
    let t4 = ",\"description\":"@;
    let t5 = ",\"guid\":"@;
    let t6 = ",\"publish\":"@;
    let t7 = "}"@;
    let x6 = quoted(x.publish) + t7;
    let x5 = quoted(x.guid) + (t6 + x6);
    let x4 = quoted(x.description) + (t5 + x5);
    let x3 = quoted(x.author) + (t4 + x4);
    let x2 = quoted(x.link) + (t3 + x3);
    let x1 = quoted(x.title) + (t2 + x2);
    let y6 = quoted(y.publish) + t7;
    let y5 = quoted(y.guid) + (t6 + y6);
    let y4 = quoted(y.description) + (t5 + y5);
    let y3 = quoted(y.author) + (t4 + y4);
    let y2 = quoted(y.link) + (t3 + y3);
    let y1 = quoted(y.title) + (t2 + y2);
    assert(json_of_item(x) == t1 + x1);
    assert(json_of_item(y) == t1 + y1);
    lemma_assoc(t1, x1, r1);
    lemma_assoc(t1, y1, r2);
    lemma_append_cancel(t1, x1 + r1, y1 + r2);
    lemma_assoc(quoted(x.title), t2 + x2, r1);
    lemma_assoc(quoted(y.title), t2 + y2, r2);
    lemma_quoted_inj(x.title, y.title, (t2 + x2) + r1, (t2 + y2) + r2);
    lemma_assoc(t2, x2, r1);
    lemma_assoc(t2, y2, r2);
    lemma_append_cancel(t2, x2 + r1, y2 + r2);
    lemma_assoc(quoted(x.link), t3 + x3, r1);
    lemma_assoc(quoted(y.link), t3 + y3, r2);
    lemma_quoted_inj(x.link, y.link, (t3 + x3) + r1, (t3 + y3) + r2);
    lemma_assoc(t3, x3, r1);
    lemma_assoc(t3, y3, r2);
    lemma_append_cancel(t3, x3 + r1, y3 + r2);
    lemma_assoc(quoted(x.author), t4 + x4, r1);
    lemma_assoc(quoted(y.author), t4 + y4, r2);
    lemma_quoted_inj(x.author, y.author, (t4 + x4) + r1, (t4 + y4) + r2);
    lemma_assoc(t4, x4, r1);
    lemma_assoc(t4, y4, r2);
    lemma_append_cancel(t4, x4 + r1, y4 + r2);
    lemma_assoc(quoted(x.description), t5 + x5, r1);
    lemma_assoc(quoted(y.description), t5 + y5, r2);
    lemma_quoted_inj(x.description, y.description, (t5 + x5) + r1, (t5 + y5) + r2);
    lemma_assoc(t5, x5, r1);
    lemma_assoc(t5, y5, r2);
    lemma_append_cancel(t5, x5 + r1, y5 + r2);
    lemma_assoc(quoted(x.guid), t6 + x6, r1);
    lemma_assoc(quoted(y.guid), t6 + y6, r2);
    lemma_quoted_inj(x.guid, y.guid, (t6 + x6) + r1, (t6 + y6) + r2);
    lemma_assoc(t6, x6, r1);
    lemma_assoc(t6, y6, r2);
    lemma_append_cancel(t6, x6 + r1, y6 + r2);
    lemma_assoc(quoted(x.publish), t7, r1);
    lemma_assoc(quoted(y.publish), t7, r2);
    lemma_quoted_inj(x.publish, y.publish, t7 + r1, t7 + r2);
    lemma_append_cancel(t7, r1, r2);
    assert(x =~= y);
}

proof fn lemma_item_head(z: ItemModel)
    ensures
        json_of_item(z).len() >= 1,
        json_of_item(z)[0] == '{',
{
    reveal_strlit("{\"title\":");
    assert(json_of_item(z)[0] == ("{\"title\":"@)[0]);
}

proof fn lemma_items_inj(x: Seq<ItemModel>, y: Seq<ItemModel>, r1: Seq<char>, r2: Seq<char>)
    requires
        json_of_items(x) + (seq![']'] + r1) == json_of_items(y) + (seq![']'] + r2),
    ensures
        x == y,
        r1 == r2,
    decreases x.len(),
{
    let la = json_of_items(x) + (seq![']'] + r1);
    let lb = json_of_items(y) + (seq![']'] + r2);
    if x.len() == 0 && y.len() == 0 {
        assert(la =~= seq![']'] + r1);
        assert(lb =~= seq![']'] + r2);
        lemma_append_cancel(seq![']'], r1, r2);
        assert(x =~= y);
    } else if x.len() == 0 {
        assert(la =~= seq![']'] + r1);
        assert(la[0] == ']');
        lemma_item_head(y[0]);
        assert(lb[0] == json_of_item(y[0])[0]);
        assert(false);
    } else if y.len() == 0 {
        assert(lb =~= seq![']'] + r2);
        assert(lb[0] == ']');
        lemma_item_head(x[0]);
        assert(la[0] == json_of_item(x[0])[0]);
        assert(false);
    } else {
        let ta = if x.len() == 1 {
            seq![']'] + r1
        } else {
            seq![','] + (json_of_items(x.drop_first()) + (seq![']'] + r1))
        };
        let tb = if y.len() == 1 {
            seq![']'] + r2
        } else {
            seq![','] + (json_of_items(y.drop_first()) + (seq![']'] + r2))
        };
        if x.len() == 1 {
            assert(la == json_of_item(x[0]) + ta);
        } else {
            lemma_assoc(json_of_item(x[0]), seq![','] + json_of_items(x.drop_first()), seq![']'] + r1);
            lemma_assoc(seq![','], json_of_items(x.drop_first()), seq![']'] + r1);
            assert(la == json_of_item(x[0]) + ta);
        }
        if y.len() == 1 {
            assert(lb == json_of_item(y[0]) + tb);
        } else {
            lemma_assoc(json_of_item(y[0]), seq![','] + json_of_items(y.drop_first()), seq![']'] + r2);
            lemma_assoc(seq![','], json_of_items(y.drop_first()), seq![']'] + r2);
            assert(lb == json_of_item(y[0]) + tb);
        }
        lemma_item_inj(x[0], y[0], ta, tb);
        if x.len() == 1 && y.len() == 1 {
            lemma_append_cancel(seq![']'], r1, r2);
            assert(x =~= y);
        } else if x.len() == 1 || y.len() == 1 {
            assert(ta[0] == tb[0]);
            assert(false);
        } else {
            lemma_append_cancel(
                seq![','],
                json_of_items(x.drop_first()) + (seq![']'] + r1),
                json_of_items(y.drop_first()) + (seq![']'] + r2),
            );
            lemma_items_inj(x.drop_first(), y.drop_first(), r1, r2);
            assert(x =~= y) by {
                assert(forall|i: int| 1 <= i < x.len() ==> #[trigger] x[i] == x.drop_first()[i - 1]);
                assert(forall|i: int| 1 <= i < y.len() ==> #[trigger] y[i] == y.drop_first()[i - 1]);
            }
        }
    }
}

/// The rendering is injective: two record sequences with the same JSON
/// output are the same sequence, record for record.
pub proof fn lemma_json_injective(x: Seq<ItemModel>, y: Seq<ItemModel>)
    requires
        json_of(x) == json_of(y),
    ensures
        x == y,
{
    assert(json_of(x) =~= seq!['['] + (json_of_items(x) + (seq![']'] + Seq::<char>::empty())));
    assert(json_of(y) =~= seq!['['] + (json_of_items(y) + (seq![']'] + Seq::<char>::empty())));
    lemma_append_cancel(
        seq!['['],
        json_of_items(x) + (seq![']'] + Seq::<char>::empty()),
        json_of_items(y) + (seq![']'] + Seq::<char>::empty()),
    );
    lemma_items_inj(x, y, Seq::<char>::empty(), Seq::<char>::empty());
}

/// The spec-level reader of the JSON-array contract: the record sequence a
/// text renders from, if there is one.
pub open spec fn records_of_json(s: Seq<char>) -> Option<Seq<ItemModel>> {
    if exists|rs: Seq<ItemModel>| json_of(rs) == s {
        Some(choose|rs: Seq<ItemModel>| json_of(rs) == s)
    } else {
        None
    }
}

/// Round trip: reading a rendered array back yields exactly the records that
/// were rendered, field for field, empty strings included.
pub proof fn lemma_json_round_trip(rs: Seq<ItemModel>)
    ensures
        records_of_json(json_of(rs)) == Some(rs),
{
    assert(exists|z: Seq<ItemModel>| json_of(z) == json_of(rs)) by {
        assert(json_of(rs) == json_of(rs));
    }
    let w = choose|z: Seq<ItemModel>| json_of(z) == json_of(rs);
    lemma_json_injective(w, rs);
}

/// Relies on `String::push`: appends exactly one character.
#[verifier::external_body]
fn push_char(s: &mut String, c: char)
    ensures
        final(s)@ == old(s)@.push(c),
{
    s.push(c);
}

fn hex_digit_exec(d: u32) -> (r: char)
    requires
        d < 16,
    ensures
        r == hex_digit(d as int),
{
    if d < 10 {
        (48 + (d as u8)) as char
    } else {
        (97 + ((d as u8) - 10)) as char
    }
}

fn escape_into(out: &mut String, s: &str)
    ensures
        final(out)@ == old(out)@ + escape(s@),
{
    let len = s.unicode_len();
    let mut i: usize = 0;
    while i < len
        invariant
            i <= len,
            len == s@.len(),
            out@ == old(out)@ + escape(s@.subrange(0, i as int)),
        decreases len - i,
    {
        let ghost pre = s@.subrange(0, i as int);
        let c = s.get_char(i);
        let u = c as u32;
        if u == 34 {
            push_char(out, '\\');
            push_char(out, '"');
        } else if u == 92 {
            push_char(out, '\\');
            push_char(out, '\\');
        } else if u < 32 {
            push_char(out, '\\');
            push_char(out, 'u');
            push_char(out, '0');
            push_char(out, '0');
            push_char(out, hex_digit_exec(u / 16));
            push_char(out, hex_digit_exec(u % 16));
        } else {
            push_char(out, c);
        }
        proof {
            lemma_escape_push(pre, c);
            assert(s@.subrange(0, i + 1) =~= pre.push(c));
            assert(out@ =~= old(out)@ + escape(s@.subrange(0, i + 1)));
        }
        i += 1;
    }
    proof {
        assert(s@.subrange(0, len as int) =~= s@);
    }
}

/// Escaping one more character appends that character's escape.
proof fn lemma_escape_push(s: Seq<char>, c: char)
    ensures
        escape(s.push(c)) == escape(s) + escape_char(c),
    decreases s.len(),
{
    let p = s.push(c);
    if s.len() == 0 {
        assert(p[0] == c);
        assert(p.drop_first() =~= Seq::<char>::empty());
        assert(escape(p) == escape_char(c) + escape(p.drop_first()));
        assert(escape(p.drop_first()) =~= Seq::<char>::empty());
        assert(escape(s) =~= Seq::<char>::empty());
        assert(escape(p) =~= escape(s) + escape_char(c));
    } else {
        assert(p[0] == s[0]);
        assert(p.drop_first() =~= s.drop_first().push(c));
        lemma_escape_push(s.drop_first(), c);
        assert(escape(p) == escape_char(s[0]) + escape(p.drop_first()));
        assert(escape(p.drop_first()) == escape(s.drop_first()) + escape_char(c));
        assert(escape(s) == escape_char(s[0]) + escape(s.drop_first()));
        assert(escape(p) =~= escape(s) + escape_char(c));
    }
}

fn quote_into(out: &mut String, s: &str)
    ensures
        final(out)@ == old(out)@ + quoted(s@),
{
    push_char(out, '"');
    escape_into(out, s);
    push_char(out, '"');
    proof {
        assert(out@ =~= old(out)@ + quoted(s@));
    }
}

fn item_into(out: &mut String, it: &RssItem)
    ensures
        final(out)@ == old(out)@ + json_of_item(it@),
{
    out.append("{\"title\":");
    quote_into(out, it.title.as_str());
    out.append(",\"link\":");
    quote_into(out, it.link.as_str());
    out.append(",\"author\":");
    quote_into(out, it.author.as_str());
    out.append(",\"description\":");
    quote_into(out, it.description.as_str());
    out.append(",\"guid\":");
    quote_into(out, it.guid.as_str());
    out.append(",\"publish\":");
    quote_into(out, it.publish.as_str());
    out.append("}");
    proof {
        assert(out@ =~= old(out)@ + json_of_item(it@));
    }
}

/// Render the records as a JSON array of objects with the six contractual
/// string keys, in record order.
pub fn records_to_json(items: &Vec<RssItem>) -> (r: String)
    ensures
        r@ == json_of(items@.map_values(|it: RssItem| it@)),
{
    let ghost models = items@.map_values(|it: RssItem| it@);
    let mut out = String::new();
    push_char(&mut out, '[');
    let mut i: usize = 0;
    proof {
        assert(models.subrange(0, 0) =~= Seq::<ItemModel>::empty());
        assert(out@ =~= seq!['['] + json_of_items(models.subrange(0, 0)));
    }
    while i < items.len()
        invariant
            i <= items.len(),
            models == items@.map_values(|it: RssItem| it@),
            models.len() == items@.len(),
            out@ == seq!['['] + json_of_items(models.subrange(0, i as int)),
        decreases items.len() - i,
    {
        let ghost pre = models.subrange(0, i as int);
        if i > 0 {
            push_char(&mut out, ',');
        }
        item_into(&mut out, &items[i]);
        proof {
            lemma_json_of_items_push(pre, models[i as int]);
            assert(models.subrange(0, i + 1) =~= pre.push(models[i as int]));
            assert(out@ =~= seq!['['] + json_of_items(models.subrange(0, i + 1)));
        }
        i += 1;
    }
    push_char(&mut out, ']');
    proof {
        assert(models.subrange(0, models.len() as int) =~= models);
        assert(out@ =~= json_of(models));
    }
    out
}

} // verus!
