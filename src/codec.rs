//! The rich-text document that the remote service keeps a review in, and its
//! conversion to and from plain paragraph text.
use vstd::prelude::*;

use crate::text::chars_of;

verus! {

broadcast use {
    vstd::std_specs::vec::group_vec_axioms,
    vstd::seq::group_seq_axioms,
};

/// A JSON value, as the remote service stores a rich-text document.
///
/// Numbers are kept as their JSON text; object members are kept in the order
/// in which the document lists them, each key at most once.
#[derive(Debug)]
pub enum Json {
    Null,
    Bool(bool),
    Number(String),
    Str(String),
    Array(Vec<Json>),
    Object(Vec<(String, Json)>),
}

/// The value stored under `key` in an object's members.
pub open spec fn member(members: Seq<(String, Json)>, key: Seq<char>) -> Option<Json>
    decreases members.len(),
{
    if members.len() == 0 {
        None
    } else if members[0].0@ == key {
        Some(members[0].1)
    } else {
        member(members.drop_first(), key)
    }
}

/// Whether `value` is the JSON string `s`.
pub open spec fn is_str(value: Option<Json>, s: Seq<char>) -> bool {
    value matches Some(Json::Str(t)) && t@ == s
}

/// The plain text of a document node: the text of its leaves, in order, with a
/// blank line before the text of each paragraph.
pub open spec fn node_text(j: Json) -> Seq<char>
    decreases j,
{
    match j {
        Json::Array(items) => items_text(items@),
        Json::Object(members) => {
            let lead = if is_str(member(members@, seq!['t', 'y', 'p', 'e']), paragraph()) {
                seq!['\n', '\n']
            } else {
                Seq::empty()
            };
            let body = if is_str(member(members@, seq!['o', 'b', 'j', 'e', 'c', 't']), seq!['t', 'e', 'x', 't']) {
                match member(members@, seq!['t', 'e', 'x', 't']) {
                    Some(Json::Str(t)) => t@,
                    _ => Seq::empty(),
                }
            } else {
                members_text(members@)
            };
            lead + body
        },
        _ => Seq::empty(),
    }
}

pub open spec fn items_text(items: Seq<Json>) -> Seq<char>
    decreases items,
{
    if items.len() == 0 {
        Seq::empty()
    } else {
        items_text(items.drop_last()) + node_text(items.last())
    }
}

pub open spec fn members_text(members: Seq<(String, Json)>) -> Seq<char>
    decreases members,
{
    if members.len() == 0 {
        Seq::empty()
    } else {
        members_text(members.drop_last()) + node_text(members.last().1)
    }
}

pub open spec fn paragraph() -> Seq<char> {
    seq!['p', 'a', 'r', 'a', 'g', 'r', 'a', 'p', 'h']
}

/// The text of a review document: the text of its `document` member, or
/// nothing where it has none.
pub open spec fn review_text_of(slate: Json) -> Seq<char> {
    match slate {
        Json::Object(members) => match member(members@, seq!['d', 'o', 'c', 'u', 'm', 'e', 'n', 't']) {
            Some(doc) => node_text(doc),
            None => Seq::empty(),
        },
        _ => Seq::empty(),
    }
}

/// The index of the member stored under `key`, if any.
pub(crate) fn find_member(members: &Vec<(String, Json)>, key: &String) -> (r: Option<usize>)
    ensures
        match member(members@, key@) {
            None => r is None,
            Some(v) => r matches Some(i) && i < members@.len() && members@[i as int].1 == v,
        },
{
    let mut i: usize = 0;
    assert(members@.subrange(0, members@.len() as int) =~= members@);
    while i < members.len()
        invariant
            i <= members@.len(),
            member(members@, key@) == member(members@.subrange(i as int, members@.len() as int), key@),
        decreases members.len() - i,
    {
        let ghost rest = members@.subrange(i as int, members@.len() as int);
        assert(rest.drop_first() =~= members@.subrange(i + 1, members@.len() as int));
        if members[i].0 == *key {
            return Some(i);
        }
        i = i + 1;
    }
    None
}

/// Whether the member stored under `key` is the JSON string `expected`.
fn member_is_str(members: &Vec<(String, Json)>, key: &String, expected: &String) -> (r: bool)
    ensures
        r == is_str(member(members@, key@), expected@),
{
    match find_member(members, key) {
        Some(i) => match &members[i].1 {
            Json::Str(t) => *t == *expected,
            _ => false,
        },
        None => false,
    }
}

/// The plain text of a document node (see `node_text`).
pub fn node_text_of(j: &Json) -> (r: String)
    ensures
        r@ == node_text(*j),
    decreases j,
{
    match j {
        Json::Array(items) => {
            let mut out = String::new();
            let mut i: usize = 0;
            while i < items.len()
                invariant
                    i <= items@.len(),
                    out@ == items_text(items@.subrange(0, i as int)),
                    *j == Json::Array(*items),
                decreases items.len() - i,
            {
                proof {
                    assert(decreases_to!(*j => (*j)->Array_0));
                    assert(decreases_to!(*items => items[i as int]));
                }
                let t = node_text_of(&items[i]);
                assert(items@.subrange(0, i + 1).drop_last() =~= items@.subrange(0, i as int));
                out.append(t.as_str());
                i = i + 1;
            }
            assert(items@.subrange(0, items@.len() as int) =~= items@);
            out
        },
        Json::Object(members) => {
            let type_key = String::from_str("type");
            let object_key = String::from_str("object");
            let text_key = String::from_str("text");
            let paragraph_name = String::from_str("paragraph");
            proof {
                reveal_strlit("type");
                reveal_strlit("object");
                reveal_strlit("text");
                reveal_strlit("paragraph");
                assert(type_key@ =~= seq!['t', 'y', 'p', 'e']);
                assert(object_key@ =~= seq!['o', 'b', 'j', 'e', 'c', 't']);
                assert(text_key@ =~= seq!['t', 'e', 'x', 't']);
                assert(paragraph_name@ =~= paragraph());
            }
            let mut out = if member_is_str(members, &type_key, &paragraph_name) {
                String::from_str("\n\n")
            } else {
                String::new()
            };
            proof {
                reveal_strlit("\n\n");
                assert("\n\n"@ =~= seq!['\n', '\n']);
            }
            if member_is_str(members, &object_key, &text_key) {
                match find_member(members, &text_key) {
                    Some(k) => match &members[k].1 {
                        Json::Str(t) => out.append(t.as_str()),
                        _ => {},
                    },
                    None => {},
                }
                out
            } else {
                let ghost lead = out@;
                let mut i: usize = 0;
                while i < members.len()
                    invariant
                        i <= members@.len(),
                        out@ == lead + members_text(members@.subrange(0, i as int)),
                        *j == Json::Object(*members),
                    decreases members.len() - i,
                {
                    proof {
                        assert(decreases_to!(*j => (*j)->Object_0));
                        assert(decreases_to!(*members => members[i as int]));
                        assert(decreases_to!(members[i as int] => members[i as int].1));
                    }
                    let t = node_text_of(&members[i].1);
                    assert(members@.subrange(0, i + 1).drop_last() =~= members@.subrange(0, i as int));
                    out.append(t.as_str());
                    i = i + 1;
                }
                assert(members@.subrange(0, members@.len() as int) =~= members@);
                out
            }
        },
        _ => String::new(),
    }
}

/// The plain text of a stored review: the text of its `document` member, a
/// blank line before each paragraph. Trimming the result is left to the
/// caller.
pub fn decode_review(slate: &Json) -> (r: String)
    ensures
        r@ == review_text_of(*slate),
{
    match slate {
        Json::Object(members) => {
            let key = String::from_str("document");
            proof {
                reveal_strlit("document");
                assert(key@ =~= seq!['d', 'o', 'c', 'u', 'm', 'e', 'n', 't']);
            }
            match find_member(members, &key) {
                Some(i) => node_text_of(&members[i].1),
                None => String::new(),
            }
        },
        _ => String::new(),
    }
}

/// How many characters of `t` come before its first line break (all of them
/// where it has none).
pub open spec fn first_break(t: Seq<char>) -> nat
    decreases t.len(),
{
    if t.len() == 0 {
        0
    } else if t[0] == '\n' {
        0
    } else {
        1 + first_break(t.drop_first())
    }
}

/// The non-empty lines of `t`, in order.
pub open spec fn paragraphs(t: Seq<char>) -> Seq<Seq<char>>
    decreases t.len(),
{
    if t.len() == 0 {
        Seq::empty()
    } else {
        let i = first_break(t) as int;
        let rest = if i < t.len() {
            paragraphs(t.skip(i + 1 as int))
        } else {
            Seq::empty()
        };
        if i == 0 {
            rest
        } else {
            seq![t.take(i as int)] + rest
        }
    }
}

/// A text leaf `{"object": "text", "text": line}`.
pub open spec fn is_text_leaf(j: Json, line: Seq<char>) -> bool {
    &&& j matches Json::Object(m)
    &&& m@.len() == 2
    &&& m@[0].0@ == seq!['o', 'b', 'j', 'e', 'c', 't']
    &&& is_str(Some(m@[0].1), seq!['t', 'e', 'x', 't'])
    &&& m@[1].0@ == seq!['t', 'e', 'x', 't']
    &&& is_str(Some(m@[1].1), line)
}

/// A paragraph block holding one text leaf:
/// `{"children": [leaf], "data": {}, "object": "block", "type": "paragraph"}`.
pub open spec fn is_paragraph(j: Json, line: Seq<char>) -> bool {
    &&& j matches Json::Object(m)
    &&& m@.len() == 4
    &&& m@[0].0@ == seq!['c', 'h', 'i', 'l', 'd', 'r', 'e', 'n']
    &&& m@[0].1 matches Json::Array(c) && c@.len() == 1 && is_text_leaf(c@[0], line)
    &&& m@[1].0@ == seq!['d', 'a', 't', 'a']
    &&& m@[1].1 matches Json::Object(d) && d@.len() == 0
    &&& m@[2].0@ == seq!['o', 'b', 'j', 'e', 'c', 't']
    &&& is_str(Some(m@[2].1), seq!['b', 'l', 'o', 'c', 'k'])
    &&& m@[3].0@ == seq!['t', 'y', 'p', 'e']
    &&& is_str(Some(m@[3].1), paragraph())
}

/// A review document with one paragraph per line:
/// `{"document": {"children": [paragraphs], "object": "document"}}`.
pub open spec fn is_review_document(j: Json, lines: Seq<Seq<char>>) -> bool {
    &&& j matches Json::Object(top)
    &&& top@.len() == 1
    &&& top@[0].0@ == seq!['d', 'o', 'c', 'u', 'm', 'e', 'n', 't']
    &&& top@[0].1 matches Json::Object(doc)
    &&& doc@.len() == 2
    &&& doc@[0].0@ == seq!['c', 'h', 'i', 'l', 'd', 'r', 'e', 'n']
    &&& doc@[0].1 matches Json::Array(ps)
    &&& ps@.len() == lines.len()
    &&& (forall|i: int| 0 <= i < lines.len() ==> is_paragraph(#[trigger] ps@[i], lines[i]))
    &&& doc@[1].0@ == seq!['o', 'b', 'j', 'e', 'c', 't']
    &&& is_str(Some(doc@[1].1), seq!['d', 'o', 'c', 'u', 'm', 'e', 'n', 't'])
}

/// The text that a document of these lines reads back as: each line after a
/// blank line.
pub open spec fn joined_paragraphs(lines: Seq<Seq<char>>) -> Seq<char>
    decreases lines.len(),
{
    if lines.len() == 0 {
        Seq::empty()
    } else {
        joined_paragraphs(lines.drop_last()) + seq!['\n', '\n'] + lines.last()
    }
}

fn key(s: &str) -> (r: String)
    ensures
        r@ == s@,
{
    String::from_str(s)
}

fn paragraph_node(line: String) -> (r: Json)
    ensures
        is_paragraph(r, line@),
{
    proof {
        reveal_strlit("object");
        reveal_strlit("text");
        reveal_strlit("children");
        reveal_strlit("data");
        reveal_strlit("block");
        reveal_strlit("type");
        reveal_strlit("paragraph");
    }
    let leaf = Json::Object(vec![(key("object"), Json::Str(key("text"))), (key("text"), Json::Str(line))]);
    let r = Json::Object(
        vec![
            (key("children"), Json::Array(vec![leaf])),
            (key("data"), Json::Object(Vec::new())),
            (key("object"), Json::Str(key("block"))),
            (key("type"), Json::Str(key("paragraph"))),
        ],
    );
    proof {
        assert("object"@ =~= seq!['o', 'b', 'j', 'e', 'c', 't']);
        assert("text"@ =~= seq!['t', 'e', 'x', 't']);
        assert("children"@ =~= seq!['c', 'h', 'i', 'l', 'd', 'r', 'e', 'n']);
        assert("data"@ =~= seq!['d', 'a', 't', 'a']);
        assert("block"@ =~= seq!['b', 'l', 'o', 'c', 'k']);
        assert("type"@ =~= seq!['t', 'y', 'p', 'e']);
        assert("paragraph"@ =~= paragraph());
    }
    r
}

proof fn lemma_first_break(t: Seq<char>, k: int)
    requires
        0 <= k <= t.len(),
        forall|j: int| 0 <= j < k ==> t[j] != '\n',
        k < t.len() ==> t[k] == '\n',
    ensures
        first_break(t) == k,
    decreases t.len(),
{
    if t.len() > 0 && k > 0 {
        lemma_first_break(t.drop_first(), k - 1);
    }
}

/// Splits off the line of `t` that ends at `k`.
proof fn lemma_paragraphs_step(t: Seq<char>, k: int)
    requires
        0 <= k <= t.len(),
        forall|j: int| 0 <= j < k ==> t[j] != '\n',
        k < t.len() ==> t[k] == '\n',
    ensures
        paragraphs(t) == (if k == 0 { Seq::<Seq<char>>::empty() } else { seq![t.take(k)] }) + (
        if k < t.len() {
            paragraphs(t.skip(k + 1))
        } else {
            Seq::empty()
        }),
{
    lemma_first_break(t, k);
    if t.len() == 0 {
        assert(Seq::<Seq<char>>::empty() + Seq::<Seq<char>>::empty() =~= Seq::<Seq<char>>::empty());
    } else if k == 0 {
        assert(Seq::<Seq<char>>::empty() + paragraphs(t.skip(k + 1)) =~= paragraphs(t.skip(k + 1)));
    } else if k == t.len() {
        assert(seq![t.take(k)] + Seq::<Seq<char>>::empty() =~= seq![t.take(k)]);
    }
}

/// The rich-text document for a review: one paragraph block for each
/// non-empty line of `text`.
pub fn encode_review(text: &str) -> (r: Json)
    ensures
        is_review_document(r, paragraphs(text@)),
{
    let chars = chars_of(text);
    let n = chars.len();
    let mut nodes: Vec<Json> = Vec::new();
    let ghost mut lines: Seq<Seq<char>> = Seq::empty();
    let mut start: usize = 0;
    let mut i: usize = 0;
    assert(text@.skip(0) =~= text@);
    assert(lines + paragraphs(text@) =~= paragraphs(text@));
    while i < n
        invariant
            n == chars@.len(),
            chars@ == text@,
            start <= i <= n,
            forall|j: int| start <= j < i ==> chars@[j] != '\n',
            paragraphs(text@) == lines + paragraphs(text@.skip(start as int)),
            nodes@.len() == lines.len(),
            forall|j: int| 0 <= j < lines.len() ==> is_paragraph(#[trigger] nodes@[j], lines[j]),
        decreases n - i,
    {
        if chars[i] == '\n' {
            let ghost rest = text@.skip(start as int);
            let k = i - start;
            proof {
                lemma_paragraphs_step(rest, k as int);
                assert(rest.skip(k + 1) =~= text@.skip(i + 1));
                assert(rest.take(k as int) =~= text@.subrange(start as int, i as int));
            }
            if i > start {
                let line = text.substring_char(start, i).to_owned();
                nodes.push(paragraph_node(line));
                proof {
                    lines = lines.push(text@.subrange(start as int, i as int));
                    assert(lines =~= lines.drop_last() + seq![text@.subrange(start as int, i as int)]);
                }
            } else {
                assert(Seq::<Seq<char>>::empty() + paragraphs(text@.skip(i + 1)) =~= paragraphs(text@.skip(i + 1)));
            }
            start = i + 1;
        }
        i = i + 1;
    }
    let ghost rest = text@.skip(start as int);
    proof {
        lemma_paragraphs_step(rest, (n - start) as int);
        assert(rest.take((n - start) as int) =~= text@.subrange(start as int, n as int));
    }
    if n > start {
        let line = text.substring_char(start, n).to_owned();
        nodes.push(paragraph_node(line));
        proof {
            lines = lines.push(text@.subrange(start as int, n as int));
        }
    } else {
        assert(lines + Seq::<Seq<char>>::empty() + Seq::<Seq<char>>::empty() =~= lines);
    }
    assert(paragraphs(text@) =~= lines);
    proof {
        reveal_strlit("document");
        reveal_strlit("children");
        reveal_strlit("object");
        assert("document"@ =~= seq!['d', 'o', 'c', 'u', 'm', 'e', 'n', 't']);
        assert("children"@ =~= seq!['c', 'h', 'i', 'l', 'd', 'r', 'e', 'n']);
        assert("object"@ =~= seq!['o', 'b', 'j', 'e', 'c', 't']);
    }
    let doc = Json::Object(
        vec![(key("children"), Json::Array(nodes)), (key("object"), Json::Str(key("document")))],
    );
    Json::Object(vec![(key("document"), doc)])
}

proof fn lemma_leaf_text(leaf: Json, line: Seq<char>)
    requires
        is_text_leaf(leaf, line),
    ensures
        node_text(leaf) == line,
{
    reveal_with_fuel(member, 3);
    let m = leaf->Object_0@;
    assert(m[1].0@ != seq!['t', 'y', 'p', 'e']) by {
        assert(m[1].0@[1] != seq!['t', 'y', 'p', 'e'][1]);
    }
    assert(m.drop_first()[0] == m[1]);
    assert(Seq::<char>::empty() + line =~= line);
}

proof fn lemma_paragraph_text(p: Json, line: Seq<char>)
    requires
        is_paragraph(p, line),
    ensures
        node_text(p) == seq!['\n', '\n'] + line,
{
    reveal_with_fuel(member, 5);
    reveal_with_fuel(members_text, 5);
    reveal_with_fuel(items_text, 2);
    let m = p->Object_0@;
    let leaf = m[0].1->Array_0@[0];
    lemma_leaf_text(leaf, line);
    assert(m[1].0@ != seq!['t', 'y', 'p', 'e']) by {
        assert(m[1].0@[0] != seq!['t', 'y', 'p', 'e'][0]);
    }
    assert(m.drop_first().drop_first().drop_first()[0] == m[3]);
    assert(m.drop_first().drop_first()[0] == m[2]);
    assert(m.drop_first()[0] == m[1]);
    let data = m[1].1;
    assert(node_text(data) =~= Seq::<char>::empty());
    assert(m.drop_last().drop_last().drop_last() =~= seq![m[0]]);
    assert(m[0].1->Array_0@.drop_last() =~= Seq::<Json>::empty());
    assert(members_text(seq![m[0]]) =~= line) by {
        assert(seq![m[0]].drop_last() =~= Seq::<(String, Json)>::empty());
    }
    assert(members_text(m) =~= line);
}

proof fn lemma_paragraphs_text(ps: Seq<Json>, lines: Seq<Seq<char>>)
    requires
        ps.len() == lines.len(),
        forall|i: int| 0 <= i < lines.len() ==> is_paragraph(#[trigger] ps[i], lines[i]),
    ensures
        items_text(ps) == joined_paragraphs(lines),
    decreases ps.len(),
{
    if ps.len() > 0 {
        lemma_paragraphs_text(ps.drop_last(), lines.drop_last());
        lemma_paragraph_text(ps.last(), lines.last());
        assert(items_text(ps.drop_last()) + (seq!['\n', '\n'] + lines.last()) =~= joined_paragraphs(
            lines.drop_last(),
        ) + seq!['\n', '\n'] + lines.last());
    }
}

/// A document of these lines reads back as the lines in order, each after a
/// blank line.
pub proof fn lemma_document_text(doc: Json, lines: Seq<Seq<char>>)
    requires
        is_review_document(doc, lines),
    ensures
        review_text_of(doc) == joined_paragraphs(lines),
{
    reveal_with_fuel(member, 3);
    reveal_with_fuel(members_text, 3);
    let d = doc->Object_0@[0].1;
    let dm = d->Object_0@;
    let ps = dm[0].1->Array_0@;
    lemma_paragraphs_text(ps, lines);
    assert(dm.drop_first()[0] == dm[1]);
    assert(dm.drop_last() =~= seq![dm[0]]);
    assert(seq![dm[0]].drop_last() =~= Seq::<(String, Json)>::empty());
    assert(member(dm, seq!['t', 'y', 'p', 'e']) is None);
    assert(member(dm, seq!['o', 'b', 'j', 'e', 'c', 't']) == Some(dm[1].1));
    assert(!is_str(Some(dm[1].1), seq!['t', 'e', 'x', 't']));
    assert(members_text(seq![dm[0]]) =~= items_text(ps));
    assert(members_text(dm) =~= items_text(ps));
    assert(node_text(d) =~= items_text(ps));
}

/// Decoding the document that `encode_review` makes of `text` gives back the
/// non-empty lines of `text`, in order, each after a blank line; trimming that
/// leading blank line is left to the caller.
pub proof fn lemma_review_round_trip(text: Seq<char>, doc: Json)
    requires
        is_review_document(doc, paragraphs(text)),
    ensures
        review_text_of(doc) == joined_paragraphs(paragraphs(text)),
{
    lemma_document_text(doc, paragraphs(text));
}

} // verus!
