//! Texts, documents and markdown.

use granola::json::{
    put_field, set_field, text_list, text_value, Json, Number,
};
use granola::prosemirror::{repeat_hash, to_markdown};
use granola::text::{
    contains, join, prefixed, put_ordered, put_text, read_integer, split_lines, starts_with,
    text_eq, text_less, to_ascii_lower, to_decimal, trim, trim_end, trim_start, white,
};
use granola::wire::parse_json;

const SAMPLES: [&str; 12] = [
    "",
    "\n",
    "a\r\nb\rc\n\nd",
    " \u{3000}x\u{2003}y \t\n",
    "\r\n",
    "ÄÖ",
    "ab",
    "abab",
    "b",
    "\u{10ffff}",
    "\u{e000}",
    "-12",
];

fn doc(s: &str) -> Json {
    parse_json(s).expect("a document")
}

#[test]
fn white_space_is_that_of_unicode() {
    for n in 0..=0x10ffff_u32 {
        if let Some(c) = char::from_u32(n) {
            assert_eq!(white(c), c.is_whitespace(), "{n:x}");
        }
    }
}

#[test]
fn texts_are_cut_split_and_compared() {
    for a in SAMPLES {
        assert_eq!(trim(a), a.trim());
        assert_eq!(trim_start(a), a.trim_start());
        assert_eq!(trim_end(a), a.trim_end());
        assert_eq!(to_ascii_lower(a), a.to_ascii_lowercase());
        assert_eq!(
            split_lines(a),
            a.lines().map(str::to_string).collect::<Vec<_>>(),
            "{a:?}"
        );
        assert_eq!(prefixed("x", a), format!("x{a}"));
        for b in SAMPLES {
            assert_eq!(text_eq(a, b), a == b);
            assert_eq!(text_less(a, b), a < b, "{a:?} {b:?}");
            assert_eq!(starts_with(a, b), a.starts_with(b));
            assert_eq!(contains(a, b), a.contains(b), "{a:?} {b:?}");
        }
    }
    let parts: Vec<String> = vec!["a".into(), String::new(), "b".into()];
    assert_eq!(join(&parts, ", "), "a, , b");
    assert_eq!(join(&Vec::new(), ", "), "");
}

#[test]
fn numbers_are_written_and_read() {
    for n in [0, 9, 10, 12345, u64::MAX] {
        assert_eq!(to_decimal(n), n.to_string());
    }
    for s in [
        "0", "-0", "+7", "-12", "007", "", "+", "-", "--1", "1 ", "1a", "９",
        "9223372036854775807", "9223372036854775808", "-9223372036854775808",
        "-9223372036854775809", "00000000000000000000000001",
    ] {
        assert_eq!(read_integer(s), s.parse::<i64>().ok(), "{s:?}");
    }
}

#[test]
fn lists_hold_each_text_once() {
    let mut v: Vec<String> = Vec::new();
    for s in ["b", "a", "b", "c", "a"] {
        put_text(&mut v, s);
    }
    assert_eq!(v, vec!["a", "b", "c"]);
    let mut v: Vec<String> = Vec::new();
    for s in ["b", "a", "b", "c"] {
        put_ordered(&mut v, s);
    }
    assert_eq!(v, vec!["a", "b", "b", "c"]);
}

#[test]
fn documents_are_read() {
    assert_eq!(
        doc(r#"{"b":[1,-2,1.5,true,null],"a":"xé"}"#).get("b"),
        Some(&Json::Array(vec![
            Json::Number(Number::Unsigned(1)),
            Json::Number(Number::Negative(-2)),
            Json::Number(Number::Decimal("1.5".into())),
            Json::Bool(true),
            Json::Null,
        ]))
    );
    assert_eq!(doc(r#"{"a":"xé"}"#).text("a"), Some("xé"));
    assert_eq!(doc(r#"{"a":1,"a":2}"#).get("a"), Some(&Json::Number(Number::Unsigned(2))));
    assert_eq!(doc(r#"{"a":{"b":{"c":3}}}"#).get3("a", "b", "c").and_then(Json::as_u64), Some(3));
    assert_eq!(doc("-3").as_u64(), None);
    assert_eq!(doc("[]").get("a"), None);
    assert_eq!(parse_json("{"), None);
    assert_eq!(parse_json(""), None);
    assert_eq!(parse_json("1 2"), None);
    assert_eq!(doc(" 7 "), Json::Number(Number::Unsigned(7)));
}

#[test]
fn what_is_put_is_found() {
    let mut fields = vec![("a".to_string(), Json::Null), ("b".to_string(), Json::Bool(true))];
    put_field(&mut fields, "a", text_value("x"));
    put_field(&mut fields, "c", Json::Null);
    let j = Json::Object(fields);
    assert_eq!(j.text("a"), Some("x"));
    assert_eq!(j.get("b"), Some(&Json::Bool(true)));
    assert_eq!(j.get("c"), Some(&Json::Null));
    assert_eq!(set_field(Json::Null, "a", Json::Null), Json::Null);
    assert_eq!(
        text_list(&vec!["a".to_string()]),
        Json::Array(vec![Json::Text("a".into())])
    );
}

#[test]
fn rich_text_becomes_markdown() {
    let md = |s: &str| to_markdown(&doc(s));
    let text = |t: &str, marks: &str| format!(r#"{{"type":"text","text":"{t}","marks":[{marks}]}}"#);
    let node = |kind: &str, inner: &str| format!(r#"{{"type":"{kind}","content":[{inner}]}}"#);
    let one = |n: &str| md(&format!(r#"{{"content":[{n}]}}"#));

    assert_eq!(md("{}"), "");
    assert_eq!(md(r#"{"content":5}"#), "");
    let p = node("paragraph", &text("a", ""));
    assert_eq!(md(&format!(r#"{{"content":[{p},{p}]}}"#)), "a\n\na");
    assert_eq!(
        one(&text("a", r#"{"type":"bold"},{"type":"em"},{"type":"x"},{"type":"code"}"#)),
        "`***a***`"
    );
    assert_eq!(one(&text("a", r#"{"type":"strike"},{"type":"strong"}"#)), "**~~a~~**");
    for (level, hashes) in [("0", "#"), ("3", "###"), ("9", "######"), ("-1", "#"), ("\"2\"", "#")] {
        assert_eq!(
            one(&format!(
                r#"{{"type":"heading","attrs":{{"level":{level}}},"content":[{}]}}"#,
                text("h", "")
            )),
            format!("{hashes} h")
        );
    }
    let item = node("listItem", &format!("{p},{p}"));
    assert_eq!(one(&node("bulletList", &format!("{item},{item}"))), "- a\n  a\n- a\n  a");
    assert_eq!(
        one(&node("orderedList", &format!("{item},{p},{item}"))),
        "1. a\n  a\na\n3. a\n  a"
    );
    assert_eq!(one(&node("blockquote", &format!("{p},{p}"))), "> a\n> a");
    assert_eq!(
        one(r#"{"type":"codeBlock","attrs":{"language":"rs"},"content":[{"type":"text","text":"x"}]}"#),
        "```rs\nx\n```"
    );
    assert_eq!(one(&node("codeBlock", "")), "```\n\n```");
    assert_eq!(one(r#"{"type":"horizontalRule"}"#), "---");
    assert_eq!(one(&node("unheardOf", &format!("{p},{p}"))), "aa");
    assert_eq!(one("7"), "");
    assert_eq!(repeat_hash(3), "###");
}
