//! ProseMirror documents as markdown.

use crate::json;
use crate::json::{Json, JsonView};
use crate::text;
use crate::text::{join, starts_with, text_eq, to_decimal};
use vstd::prelude::*;

verus! {

/// A text inside the delimiters of one mark. An unknown mark adds none.
pub open spec fn marked_once(s: Seq<char>, mark: JsonView) -> Seq<char> {
    let kind = mark.text_or("type"@, ""@);
    if kind == "bold"@ || kind == "strong"@ {
        "**"@ + s + "**"@
    } else if kind == "italic"@ || kind == "em"@ {
        "*"@ + s + "*"@
    } else if kind == "code"@ {
        "`"@ + s + "`"@
    } else if kind == "strike"@ {
        "~~"@ + s + "~~"@
    } else {
        s
    }
}

/// A text inside the delimiters of its marks, the first mark innermost.
pub open spec fn marked(s: Seq<char>, marks: Seq<JsonView>) -> Seq<char>
    decreases marks.len(),
{
    if marks.len() == 0 {
        s
    } else {
        marked_once(marked(s, marks.drop_last()), marks.last())
    }
}

/// The level of a heading, between one and six.
pub open spec fn heading_level(n: JsonView) -> nat {
    match n.get2("attrs"@, "level"@) {
        Some(v) => match v.as_unsigned() {
            Some(l) => if l < 1 {
                1
            } else if l > 6 {
                6
            } else {
                l as nat
            },
            None => 1,
        },
        None => 1,
    }
}

/// Number signs, as many as given.
pub open spec fn hashes(n: nat) -> Seq<char> {
    Seq::new(n, |i: int| '#')
}

/// An item of a numbered list: a leading dash becomes the number.
pub open spec fn numbered(i: nat, part: Seq<char>) -> Seq<char> {
    if text::begins_with(part, "- "@) {
        text::decimal(i + 1) + ". "@ + part.skip(2)
    } else {
        part
    }
}

/// A node as markdown, given the markdown of the nodes inside it.
pub open spec fn assembled(n: JsonView, parts: Seq<Seq<char>>) -> Seq<char> {
    let kind = n.text_or("type"@, ""@);
    let inline = text::joined(parts, ""@);
    if kind == "heading"@ {
        hashes(heading_level(n)) + " "@ + inline
    } else if kind == "paragraph"@ {
        inline
    } else if kind == "bulletList"@ {
        text::joined(parts, "\n"@)
    } else if kind == "orderedList"@ {
        text::joined(Seq::new(parts.len(), |i: int| numbered(i as nat, parts[i])), "\n"@)
    } else if kind == "listItem"@ {
        "- "@ + text::joined(parts, "\n  "@)
    } else if kind == "blockquote"@ {
        text::joined(Seq::new(parts.len(), |i: int| "> "@ + parts[i]), "\n"@)
    } else if kind == "codeBlock"@ {
        let lang = match json::text_in(n.get2("attrs"@, "language"@)) {
            Some(l) => l,
            None => ""@,
        };
        "```"@ + lang + "\n"@ + inline + "\n```"@
    } else if kind == "horizontalRule"@ {
        "---"@
    } else if kind == "text"@ {
        let plain = n.text_or("text"@, ""@);
        match n.items("marks"@) {
            Some(marks) => marked(plain, marks),
            None => plain,
        }
    } else {
        inline
    }
}

/// The nodes inside a node.
pub open spec fn children(n: JsonView) -> Seq<JsonView> {
    match n.items("content"@) {
        Some(items) => items,
        None => Seq::empty(),
    }
}

/// The nodes inside a node, each as markdown.
pub open spec fn inner_md(n: JsonView) -> Seq<Seq<char>>
    decreases n,
{
    let inner = children(n);
    proof {
        json::lemma_items_smaller(n, "content"@);
    }
    Seq::new(
        inner.len(),
        |i: int|
            if 0 <= i < inner.len() {
                assembled(inner[i], inner_md(inner[i]))
            } else {
                Seq::empty()
            },
    )
}

/// A node as markdown.
pub open spec fn node_md(n: JsonView) -> Seq<char> {
    assembled(n, inner_md(n))
}

/// Nodes as markdown.
pub open spec fn nodes_md(nodes: Seq<JsonView>) -> Seq<Seq<char>> {
    Seq::new(nodes.len(), |i: int| node_md(nodes[i]))
}

/// A whole document as markdown: its nodes with a blank line between them.
pub open spec fn markdown(doc: JsonView) -> Seq<char> {
    text::joined(nodes_md(children(doc)), "\n\n"@)
}

/// A text inside the delimiters of its marks.
fn apply_marks(plain: &str, marks: Option<&Vec<Json>>) -> (r: String)
    ensures
        r@ == (match marks {
            Some(v) => marked(plain@, json::views(v@)),
            None => plain@,
        }),
{
    let mut out: String = plain.to_owned();
    match marks {
        None => out,
        Some(v) => {
            let ghost all = json::views(v@);
            let mut i: usize = 0;
            while i < v.len()
                invariant
                    i <= v.len(),
                    all == json::views(v@),
                    out@ == marked(plain@, all.take(i as int)),
                decreases v.len() - i,
            {
                let kind = v[i].text_or("type", "");
                out = if text_eq(kind, "bold") || text_eq(kind, "strong") {
                    enclosed("**", out.as_str())
                } else if text_eq(kind, "italic") || text_eq(kind, "em") {
                    enclosed("*", out.as_str())
                } else if text_eq(kind, "code") {
                    enclosed("`", out.as_str())
                } else if text_eq(kind, "strike") {
                    enclosed("~~", out.as_str())
                } else {
                    out
                };
                i += 1;
                assert(all.take(i as int).drop_last() =~= all.take(i - 1));
                assert(all.take(i as int).last() == v@[i - 1]@);
            }
            assert(all.take(v.len() as int) =~= all);
            out
        },
    }
}

/// A text between two delimiters.
fn enclosed(delimiter: &str, s: &str) -> (r: String)
    ensures
        r@ == delimiter@ + s@ + delimiter@,
{
    let mut out: String = delimiter.to_owned();
    out.append(s);
    out.append(delimiter);
    out
}

/// Number signs, as many as given.
pub fn repeat_hash(n: usize) -> (r: String)
    ensures
        r@ == hashes(n as nat),
{
    let mut out = String::new();
    let mut i: usize = 0;
    while i < n
        invariant
            i <= n,
            out@ == hashes(i as nat),
        decreases n - i,
    {
        out.push('#');
        i += 1;
        assert(hashes(i as nat) =~= hashes((i - 1) as nat).push('#'));
    }
    out
}

/// The items of a numbered list.
fn number_items(parts: &Vec<String>) -> (r: Vec<String>)
    ensures
        text::text_views(r@) == Seq::new(
            parts@.len(),
            |i: int| numbered(i as nat, text::text_views(parts@)[i]),
        ),
{
    let mut out: Vec<String> = Vec::new();
    let mut i: usize = 0;
    while i < parts.len()
        invariant
            i <= parts.len(),
            out.len() == i,
            forall|k: int| 0 <= k < i ==> (#[trigger] out@[k])@ == numbered(k as nat, parts@[k]@),
        decreases parts.len() - i,
    {
        let part = parts[i].as_str();
        if starts_with(part, "- ") {
            let cs = text::chars_of(part);
            proof {
                reveal_strlit("- ");
            }
            let mut line = to_decimal(i as u64 + 1);
            line.append(". ");
            line.append(text::string_of(&cs, 2, cs.len()).as_str());
            assert(cs@.subrange(2, cs@.len() as int) =~= part@.skip(2));
            out.push(line);
        } else {
            out.push(part.to_owned());
        }
        i += 1;
    }
    assert(text::text_views(out@) =~= Seq::new(
        parts@.len(),
        |i: int| numbered(i as nat, text::text_views(parts@)[i]),
    ));
    out
}

/// The lines of a quotation.
fn quote_items(parts: &Vec<String>) -> (r: Vec<String>)
    ensures
        text::text_views(r@) == Seq::new(
            parts@.len(),
            |i: int| "> "@ + text::text_views(parts@)[i],
        ),
{
    let mut out: Vec<String> = Vec::new();
    let mut i: usize = 0;
    while i < parts.len()
        invariant
            i <= parts.len(),
            out.len() == i,
            forall|k: int| 0 <= k < i ==> (#[trigger] out@[k])@ == "> "@ + parts@[k]@,
        decreases parts.len() - i,
    {
        let mut line: String = "> ".to_owned();
        line.append(parts[i].as_str());
        out.push(line);
        i += 1;
    }
    assert(text::text_views(out@) =~= Seq::new(
        parts@.len(),
        |i: int| "> "@ + text::text_views(parts@)[i],
    ));
    out
}

/// The level of a heading, between one and six.
fn level_of(node: &Json) -> (r: usize)
    ensures
        r == heading_level(node@),
{
    match node.get2("attrs", "level") {
        Some(v) => match v.as_u64() {
            Some(l) => if l < 1 {
                1
            } else if l > 6 {
                6
            } else {
                l as usize
            },
            None => 1,
        },
        None => 1,
    }
}

/// A node as markdown, given the markdown of the nodes inside it.
fn assemble(node: &Json, parts: &Vec<String>) -> (r: String)
    ensures
        r@ == assembled(node@, text::text_views(parts@)),
{
    let kind = node.text_or("type", "");
    if text_eq(kind, "heading") {
        let mut out = repeat_hash(level_of(node));
        out.append(" ");
        out.append(join(parts, "").as_str());
        out
    } else if text_eq(kind, "paragraph") {
        join(parts, "")
    } else if text_eq(kind, "bulletList") {
        join(parts, "\n")
    } else if text_eq(kind, "orderedList") {
        join(&number_items(parts), "\n")
    } else if text_eq(kind, "listItem") {
        let mut out: String = "- ".to_owned();
        out.append(join(parts, "\n  ").as_str());
        out
    } else if text_eq(kind, "blockquote") {
        join(&quote_items(parts), "\n")
    } else if text_eq(kind, "codeBlock") {
        let mut out: String = "```".to_owned();
        match json::opt_str(node.get2("attrs", "language")) {
            Some(lang) => out.append(lang),
            None => out.append(""),
        }
        out.append("\n");
        out.append(join(parts, "").as_str());
        out.append("\n```");
        out
    } else if text_eq(kind, "horizontalRule") {
        "---".to_owned()
    } else if text_eq(kind, "text") {
        apply_marks(node.text_or("text", ""), node.items("marks"))
    } else {
        join(parts, "")
    }
}

/// A node as markdown.
fn node_to_md(node: &Json) -> (r: String)
    ensures
        r@ == node_md(node@),
    decreases node@,
{
    let mut parts: Vec<String> = Vec::new();
    let ghost inner = children(node@);
    match node.items("content") {
        Some(items) => {
            let mut i: usize = 0;
            proof {
                json::lemma_items_smaller(node@, "content"@);
            }
            while i < items.len()
                invariant
                    i <= items.len(),
                    parts.len() == i,
                    inner == json::views(items@),
                    forall|k: int|
                        0 <= k < inner.len() ==> decreases_to!(node@ => #[trigger] inner[k]),
                    forall|k: int| 0 <= k < i ==> (#[trigger] parts@[k])@ == node_md(inner[k]),
                decreases items.len() - i,
            {
                assert(inner[i as int] == items@[i as int]@);
                parts.push(node_to_md(&items[i]));
                i += 1;
            }
        },
        None => {},
    }
    let r = assemble(node, &parts);
    proof {
        assert(text::text_views(parts@) =~= inner_md(node@));
    }
    r
}

/// A ProseMirror document as markdown: its top nodes, with a blank line
/// between them. What is no document gives an empty text.
pub fn to_markdown(doc: &Json) -> (r: String)
    ensures
        r@ == markdown(doc@),
{
    let mut parts: Vec<String> = Vec::new();
    match doc.items("content") {
        Some(items) => {
            let mut i: usize = 0;
            while i < items.len()
                invariant
                    i <= items.len(),
                    parts.len() == i,
                    forall|k: int|
                        0 <= k < i ==> (#[trigger] parts@[k])@ == node_md(json::views(items@)[k]),
                decreases items.len() - i,
            {
                parts.push(node_to_md(&items[i]));
                i += 1;
            }
        },
        None => {},
    }
    assert(text::text_views(parts@) =~= nodes_md(children(doc@)));
    join(&parts, "\n\n")
}

// ---- What holds of markdown -------------------------------------------------

/// A heading has a level between one and six, and begins with as many number
/// signs and a space.
pub proof fn law_heading_begins_with_its_level(n: JsonView, parts: Seq<Seq<char>>)
    requires
        n.text_or("type"@, ""@) == "heading"@,
    ensures
        1 <= heading_level(n) <= 6,
        text::begins_with(assembled(n, parts), hashes(heading_level(n)) + " "@),
{
    let head = hashes(heading_level(n)) + " "@;
    assert(assembled(n, parts).take(head.len() as int) =~= head);
}

/// Nodes that run on stand one after the other with nothing between them: a
/// paragraph of two lists of nodes is the paragraph of the first and then that
/// of the second, and a paragraph of one node is that node. So with every kind
/// of node that is not known.
pub proof fn law_paragraph_runs_on(
    n: JsonView,
    a: JsonView,
    b: JsonView,
    kind: Seq<char>,
    p: Seq<JsonView>,
    q: Seq<JsonView>,
)
    requires
        kind == "paragraph"@ || !(kind == "heading"@ || kind == "bulletList"@ || kind
            == "orderedList"@ || kind == "listItem"@ || kind == "blockquote"@ || kind
            == "codeBlock"@ || kind == "horizontalRule"@ || kind == "text"@),
        n.text_or("type"@, ""@) == kind,
        a.text_or("type"@, ""@) == kind,
        b.text_or("type"@, ""@) == kind,
        n.items("content"@) == Some(p + q),
        a.items("content"@) == Some(p),
        b.items("content"@) == Some(q),
    ensures
        node_md(n) == node_md(a) + node_md(b),
        node_md(n).len() == node_md(a).len() + node_md(b).len(),
        p.len() == 0 ==> node_md(a).len() == 0,
        p.len() == 1 ==> node_md(a) == node_md(p[0]),
{
    lemma_kinds_differ();
    lemma_parts_of(n, a, b, p, q);
    text::law_joined_adds_up(inner_md(a), inner_md(b), ""@);
    reveal_strlit("");
    assert(node_md(n) =~= node_md(a) + node_md(b));
    if p.len() == 1 {
        assert(inner_md(a) =~= seq![node_md(p[0])]);
    } else if p.len() == 0 {
        assert(inner_md(a) =~= Seq::empty());
    }
}

/// The names of the kinds differ.
proof fn lemma_kinds_differ()
    ensures
        "heading"@ != "paragraph"@,
        "heading"@ != "bulletList"@,
        "heading"@ != "orderedList"@,
        "heading"@ != "listItem"@,
        "heading"@ != "blockquote"@,
        "heading"@ != "codeBlock"@,
        "heading"@ != "horizontalRule"@,
        "heading"@ != "text"@,
        "paragraph"@ != "bulletList"@,
        "paragraph"@ != "orderedList"@,
        "paragraph"@ != "listItem"@,
        "paragraph"@ != "blockquote"@,
        "paragraph"@ != "codeBlock"@,
        "paragraph"@ != "horizontalRule"@,
        "paragraph"@ != "text"@,
        "bulletList"@ != "orderedList"@,
        "bulletList"@ != "listItem"@,
        "bulletList"@ != "blockquote"@,
        "bulletList"@ != "codeBlock"@,
        "bulletList"@ != "horizontalRule"@,
        "bulletList"@ != "text"@,
        "orderedList"@ != "listItem"@,
        "orderedList"@ != "blockquote"@,
        "orderedList"@ != "codeBlock"@,
        "orderedList"@ != "horizontalRule"@,
        "orderedList"@ != "text"@,
        "listItem"@ != "blockquote"@,
        "listItem"@ != "codeBlock"@,
        "listItem"@ != "horizontalRule"@,
        "listItem"@ != "text"@,
        "blockquote"@ != "codeBlock"@,
        "blockquote"@ != "horizontalRule"@,
        "blockquote"@ != "text"@,
        "codeBlock"@ != "horizontalRule"@,
        "codeBlock"@ != "text"@,
        "horizontalRule"@ != "text"@,
{
    reveal_strlit("heading");
    reveal_strlit("paragraph");
    reveal_strlit("bulletList");
    reveal_strlit("orderedList");
    reveal_strlit("listItem");
    reveal_strlit("blockquote");
    reveal_strlit("codeBlock");
    reveal_strlit("horizontalRule");
    reveal_strlit("text");
    assert("heading"@.len() != "paragraph"@.len());
    assert("heading"@.len() != "bulletList"@.len());
    assert("heading"@.len() != "orderedList"@.len());
    assert("heading"@.len() != "listItem"@.len());
    assert("heading"@.len() != "blockquote"@.len());
    assert("heading"@.len() != "codeBlock"@.len());
    assert("heading"@.len() != "horizontalRule"@.len());
    assert("heading"@.len() != "text"@.len());
    assert("paragraph"@.len() != "bulletList"@.len());
    assert("paragraph"@.len() != "orderedList"@.len());
    assert("paragraph"@.len() != "listItem"@.len());
    assert("paragraph"@.len() != "blockquote"@.len());
    assert("paragraph"@[0] != "codeBlock"@[0]);
    assert("paragraph"@.len() != "horizontalRule"@.len());
    assert("paragraph"@.len() != "text"@.len());
    assert("bulletList"@.len() != "orderedList"@.len());
    assert("bulletList"@.len() != "listItem"@.len());
    assert("bulletList"@[1] != "blockquote"@[1]);
    assert("bulletList"@.len() != "codeBlock"@.len());
    assert("bulletList"@.len() != "horizontalRule"@.len());
    assert("bulletList"@.len() != "text"@.len());
    assert("orderedList"@.len() != "listItem"@.len());
    assert("orderedList"@.len() != "blockquote"@.len());
    assert("orderedList"@.len() != "codeBlock"@.len());
    assert("orderedList"@.len() != "horizontalRule"@.len());
    assert("orderedList"@.len() != "text"@.len());
    assert("listItem"@.len() != "blockquote"@.len());
    assert("listItem"@.len() != "codeBlock"@.len());
    assert("listItem"@.len() != "horizontalRule"@.len());
    assert("listItem"@.len() != "text"@.len());
    assert("blockquote"@.len() != "codeBlock"@.len());
    assert("blockquote"@.len() != "horizontalRule"@.len());
    assert("blockquote"@.len() != "text"@.len());
    assert("codeBlock"@.len() != "horizontalRule"@.len());
    assert("codeBlock"@.len() != "text"@.len());
    assert("horizontalRule"@.len() != "text"@.len());
}

/// The nodes inside a node are those of two lists, where its content is.
proof fn lemma_parts_of(
    n: JsonView,
    a: JsonView,
    b: JsonView,
    p: Seq<JsonView>,
    q: Seq<JsonView>,
)
    requires
        n.items("content"@) == Some(p + q),
        a.items("content"@) == Some(p),
        b.items("content"@) == Some(q),
    ensures
        inner_md(n) == inner_md(a) + inner_md(b),
        inner_md(a).len() == p.len(),
        inner_md(b).len() == q.len(),
        forall|i: int| 0 <= i < p.len() ==> #[trigger] inner_md(a)[i] == node_md(p[i]),
        forall|i: int| 0 <= i < q.len() ==> #[trigger] inner_md(b)[i] == node_md(q[i]),
{
    assert forall|i: int| 0 <= i < (p + q).len() implies #[trigger] inner_md(n)[i] == (inner_md(a)
        + inner_md(b))[i] by {
        if i < p.len() {
            assert((p + q)[i] == p[i]);
        } else {
            assert((p + q)[i] == q[i - p.len()]);
        }
    }
    assert(inner_md(n) =~= inner_md(a) + inner_md(b));
}

/// A heading is number signs, as many as its level says but at least one and at
/// most six, a space, and what a paragraph of the same nodes would be.
pub proof fn law_heading_is_marked(
    n: JsonView,
    p: JsonView,
    content: Seq<JsonView>,
    level: u64,
)
    requires
        n.text("type"@) == Some("heading"@),
        p.text("type"@) == Some("paragraph"@),
        n.items("content"@) == Some(content),
        p.items("content"@) == Some(content),
        n.get2("attrs"@, "level"@) == Some(
            JsonView::Number(json::NumberView::Unsigned(level)),
        ) || (level == 1 && !(n.get2("attrs"@, "level"@) matches Some(JsonView::Number(
            json::NumberView::Unsigned(_),
        )))),
    ensures
        ({
            let k = if level == 0 {
                1int
            } else if level > 6 {
                6
            } else {
                level as int
            };
            let md = node_md(n);
            &&& md.len() == k + 1 + node_md(p).len()
            &&& forall|i: int| 0 <= i < k ==> #[trigger] md[i] == '#'
            &&& md[k] == ' '
            &&& md.skip(k + 1) == node_md(p)
        }),
{
    lemma_kinds_differ();
    reveal_strlit(" ");
    assert(inner_md(n) =~= inner_md(p));
    let k = heading_level(n) as int;
    assert(node_md(n).skip(k + 1) =~= node_md(p));
}

/// The items of a bullet list stand on lines of their own: one more is a line
/// break and that item. A list of one item is that item.
pub proof fn law_bullet_list_goes_on(
    n: JsonView,
    a: JsonView,
    p: Seq<JsonView>,
    x: JsonView,
)
    requires
        n.text("type"@) == Some("bulletList"@),
        a.text("type"@) == Some("bulletList"@),
        n.items("content"@) == Some(p.push(x)),
        a.items("content"@) == Some(p),
    ensures
        node_md(n) == (if p.len() == 0 {
            node_md(x)
        } else {
            node_md(a) + "\n"@ + node_md(x)
        }),
        p.len() == 0 ==> node_md(a).len() == 0,
{
    lemma_kinds_differ();
    lemma_one_more(n, a, p, x);
}

/// The nodes inside a node are those inside another and one more.
proof fn lemma_one_more(n: JsonView, a: JsonView, p: Seq<JsonView>, x: JsonView)
    requires
        n.items("content"@) == Some(p.push(x)),
        a.items("content"@) == Some(p),
    ensures
        inner_md(n) == inner_md(a).push(node_md(x)),
        inner_md(n).drop_last() == inner_md(a),
        inner_md(n).last() == node_md(x),
        inner_md(a).len() == p.len(),
{
    assert forall|i: int| 0 <= i < p.push(x).len() implies #[trigger] inner_md(n)[i] == (inner_md(
        a,
    ).push(node_md(x)))[i] by {
        if i < p.len() {
            assert(p.push(x)[i] == p[i]);
        } else {
            assert(p.push(x)[i] == x);
        }
    }
    assert(inner_md(n) =~= inner_md(a).push(node_md(x)));
    assert(inner_md(n).drop_last() =~= inner_md(a));
}

/// The items of a numbered list stand on lines of their own, and the number of
/// an item stands in place of its dash.
pub proof fn law_numbered_list_goes_on(
    n: JsonView,
    a: JsonView,
    p: Seq<JsonView>,
    x: JsonView,
    rest: Seq<char>,
)
    requires
        n.text("type"@) == Some("orderedList"@),
        a.text("type"@) == Some("orderedList"@),
        n.items("content"@) == Some(p.push(x)),
        a.items("content"@) == Some(p),
        node_md(x) == "- "@ + rest,
    ensures
        node_md(n) == (if p.len() == 0 {
            "1. "@ + rest
        } else {
            node_md(a) + "\n"@ + text::decimal((p.len() + 1) as nat) + ". "@ + rest
        }),
        p.len() == 0 ==> node_md(a).len() == 0,
{
    lemma_kinds_differ();
    lemma_one_more(n, a, p, x);
    reveal_strlit("- ");
    reveal_strlit("1. ");
    reveal_strlit(". ");
    let part = node_md(x);
    assert(part.subrange(0, 2) =~= "- "@);
    assert(part.skip(2) =~= rest);
    let k = p.len();
    let line = text::decimal(k + 1) + ". "@ + rest;
    let f = |i: int| numbered(i as nat, inner_md(n)[i]);
    let g = |i: int| numbered(i as nat, inner_md(a)[i]);
    let all = Seq::new(inner_md(n).len(), f);
    let before = Seq::new(inner_md(a).len(), g);
    assert(all.last() == line);
    assert(all.drop_last() =~= before) by {
        assert forall|i: int| 0 <= i < before.len() implies all[i] == before[i] by {
            assert(inner_md(n)[i] == inner_md(a)[i]);
        }
    }
    assert(node_md(n) == text::joined(all, "\n"@));
    assert(node_md(a) == text::joined(before, "\n"@));
    if k == 0 {
        assert(text::decimal(1) =~= seq!['1']);
        assert(line =~= "1. "@ + rest);
        assert(all[0] == line);
    } else {
        assert(text::joined(all, "\n"@) =~= node_md(a) + "\n"@ + text::decimal(k + 1) + ". "@
            + rest);
    }
}

/// An item begins with a dash and a space, and what else is inside it follows on
/// indented lines.
pub proof fn law_list_item_is_indented(
    n: JsonView,
    a: JsonView,
    p: Seq<JsonView>,
    x: JsonView,
)
    requires
        n.text("type"@) == Some("listItem"@),
        a.text("type"@) == Some("listItem"@),
        n.items("content"@) == Some(p.push(x)),
        a.items("content"@) == Some(p),
    ensures
        node_md(n) == (if p.len() == 0 {
            "- "@ + node_md(x)
        } else {
            node_md(a) + "\n  "@ + node_md(x)
        }),
        p.len() == 0 ==> node_md(a) == "- "@,
{
    lemma_kinds_differ();
    lemma_one_more(n, a, p, x);
    let inner = text::joined(inner_md(a), "\n  "@);
    assert("- "@ + (inner + "\n  "@ + node_md(x)) =~= "- "@ + inner + "\n  "@ + node_md(x));
    if p.len() == 0 {
        assert(inner_md(n)[0] == node_md(x));
        assert("- "@ + inner =~= "- "@);
    }
}

/// Each node of a quotation stands on a line of its own behind an angle.
pub proof fn law_quotation_is_marked(n: JsonView, a: JsonView, p: Seq<JsonView>, x: JsonView)
    requires
        n.text("type"@) == Some("blockquote"@),
        a.text("type"@) == Some("blockquote"@),
        n.items("content"@) == Some(p.push(x)),
        a.items("content"@) == Some(p),
    ensures
        node_md(n) == (if p.len() == 0 {
            "> "@ + node_md(x)
        } else {
            node_md(a) + "\n> "@ + node_md(x)
        }),
        p.len() == 0 ==> node_md(a).len() == 0,
{
    lemma_kinds_differ();
    lemma_one_more(n, a, p, x);
    reveal_strlit("\n");
    reveal_strlit("> ");
    reveal_strlit("\n> ");
    let all = Seq::new(inner_md(n).len(), |i: int| "> "@ + inner_md(n)[i]);
    let before = Seq::new(inner_md(a).len(), |i: int| "> "@ + inner_md(a)[i]);
    assert(all.drop_last() =~= before) by {
        assert forall|i: int| 0 <= i < before.len() implies all[i] == before[i] by {
            assert(inner_md(n)[i] == inner_md(a)[i]);
        }
    }
    assert(all.last() == "> "@ + node_md(x));
    if p.len() > 0 {
        assert(text::joined(all, "\n"@) =~= node_md(a) + "\n> "@ + node_md(x));
    } else {
        assert(all[0] == "> "@ + node_md(x));
    }
}

/// A block of code stands between two fences, the first of which names its
/// language if it has one.
pub proof fn law_code_is_fenced(n: JsonView, p: JsonView, content: Seq<JsonView>)
    requires
        n.text("type"@) == Some("codeBlock"@),
        p.text("type"@) == Some("paragraph"@),
        n.items("content"@) == Some(content),
        p.items("content"@) == Some(content),
    ensures
        n.get2("attrs"@, "language"@) matches Some(JsonView::Text(language)) ==> node_md(n)
            == "```"@ + language + "\n"@ + node_md(p) + "\n```"@,
        !(n.get2("attrs"@, "language"@) matches Some(JsonView::Text(_))) ==> node_md(n) == "```\n"@
            + node_md(p) + "\n```"@,
{
    lemma_kinds_differ();
    assert(inner_md(n) =~= inner_md(p));
    reveal_strlit("```");
    reveal_strlit("");
    reveal_strlit("\n");
    reveal_strlit("```\n");
    assert("```"@ + ""@ + "\n"@ =~= "```\n"@);
}

/// A rule is three dashes, whatever is inside it.
pub proof fn law_rule_is_dashes(n: JsonView)
    requires
        n.text("type"@) == Some("horizontalRule"@),
    ensures
        node_md(n) == "---"@,
{
    lemma_kinds_differ();
}

/// A text is itself between the delimiters of its marks: one mark more encloses
/// what was there, and a mark that is not known adds nothing.
pub proof fn law_marks_enclose(
    n: JsonView,
    a: JsonView,
    marks: Seq<JsonView>,
    mark: JsonView,
    kind: Seq<char>,
)
    requires
        n.text("type"@) == Some("text"@),
        a.text("type"@) == Some("text"@),
        n.text("text"@) == a.text("text"@),
        n.items("marks"@) == Some(marks.push(mark)),
        a.items("marks"@) == Some(marks),
        mark.text_or("type"@, ""@) == kind,
    ensures
        kind == "bold"@ || kind == "strong"@ ==> node_md(n) == "**"@ + node_md(a) + "**"@,
        kind == "italic"@ || kind == "em"@ ==> node_md(n) == "*"@ + node_md(a) + "*"@,
        kind == "code"@ ==> node_md(n) == "`"@ + node_md(a) + "`"@,
        kind == "strike"@ ==> node_md(n) == "~~"@ + node_md(a) + "~~"@,
        !(kind == "bold"@ || kind == "strong"@ || kind == "italic"@ || kind == "em"@ || kind
            == "code"@ || kind == "strike"@) ==> node_md(n) == node_md(a),
{
    lemma_kinds_differ();
    reveal_strlit("bold");
    reveal_strlit("strong");
    reveal_strlit("italic");
    reveal_strlit("em");
    reveal_strlit("code");
    reveal_strlit("strike");
    assert("bold"@[0] != "code"@[0]);
    assert("strong"@[3] != "strike"@[3]);
    assert("strong"@[0] != "italic"@[0]);
    assert("strike"@[0] != "italic"@[0]);
    assert(marks.push(mark).drop_last() =~= marks);
}

/// A text without marks is itself, whatever is inside it.
pub proof fn law_plain_text_is_kept(n: JsonView, s: Seq<char>)
    requires
        n.text("type"@) == Some("text"@),
        n.text("text"@) == Some(s),
        n.items("marks"@) matches Some(marks) ==> marks.len() == 0,
    ensures
        node_md(n) == s,
{
    lemma_kinds_differ();
}

/// The nodes of a document stand apart by a blank line: one more is a blank line
/// and that node. What has no nodes is empty.
pub proof fn law_document_goes_on(n: JsonView, a: JsonView, p: Seq<JsonView>, x: JsonView)
    requires
        n.items("content"@) == Some(p.push(x)),
        a.items("content"@) == Some(p),
    ensures
        markdown(n) == (if p.len() == 0 {
            node_md(x)
        } else {
            markdown(a) + "\n\n"@ + node_md(x)
        }),
        p.len() == 0 ==> markdown(a).len() == 0,
        forall|v: JsonView|
            (#[trigger] v.items("content"@)) is None ==> markdown(v).len() == 0,
{
    assert(nodes_md(p.push(x)).drop_last() =~= nodes_md(p));
    assert(nodes_md(p.push(x)).last() == node_md(x));
}

/// An item of a numbered list that begins with no dash has no number, but the
/// items are counted all the same.
pub proof fn law_items_without_a_dash_stay(
    n: JsonView,
    a: JsonView,
    p: Seq<JsonView>,
    x: JsonView,
)
    requires
        n.text("type"@) == Some("orderedList"@),
        a.text("type"@) == Some("orderedList"@),
        n.items("content"@) == Some(p.push(x)),
        a.items("content"@) == Some(p),
        !text::begins_with(node_md(x), "- "@),
    ensures
        node_md(n) == (if p.len() == 0 {
            node_md(x)
        } else {
            node_md(a) + "\n"@ + node_md(x)
        }),
{
    lemma_kinds_differ();
    lemma_one_more(n, a, p, x);
    let all = Seq::new(inner_md(n).len(), |i: int| numbered(i as nat, inner_md(n)[i]));
    let before = Seq::new(inner_md(a).len(), |i: int| numbered(i as nat, inner_md(a)[i]));
    assert(all.last() == node_md(x));
    assert(all.drop_last() =~= before) by {
        assert forall|i: int| 0 <= i < before.len() implies all[i] == before[i] by {
            assert(inner_md(n)[i] == inner_md(a)[i]);
        }
    }
    assert(node_md(n) == text::joined(all, "\n"@));
    assert(node_md(a) == text::joined(before, "\n"@));
    if p.len() == 0 {
        assert(all[0] == node_md(x));
    }
}

/// A node without content is one with nothing inside it.
pub proof fn law_nodes_without_content_are_empty(n: JsonView, m: JsonView)
    requires
        n.items("content"@) is None,
        m.items("content"@) == Some(Seq::<JsonView>::empty()),
        n.text_or("type"@, ""@) == m.text_or("type"@, ""@),
        n.get2("attrs"@, "level"@) == m.get2("attrs"@, "level"@),
        n.get2("attrs"@, "language"@) == m.get2("attrs"@, "language"@),
        n.text("text"@) == m.text("text"@),
        n.items("marks"@) == m.items("marks"@),
    ensures
        node_md(n) == node_md(m),
{
    assert(inner_md(n) =~= Seq::empty());
    assert(inner_md(m) =~= Seq::empty());
}

/// A text node that says nothing is empty.
pub proof fn law_missing_text_is_empty(n: JsonView)
    requires
        n.text("type"@) == Some("text"@),
        n.text("text"@) is None,
        n.items("marks"@) is None,
    ensures
        node_md(n).len() == 0,
{
    lemma_kinds_differ();
    reveal_strlit("");
}

} // verus!
