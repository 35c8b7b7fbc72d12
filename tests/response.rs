use xdiff::diff::{diff_spans, SpanStyle};
use xdiff::{
    diff_text, empty_json_value, filter_json, get_body_text, get_header_text, get_status_text,
    get_text, is_default, show_headers, ChangeKind, Error, JsonValue, ResponseProfile,
};

fn s(v: &str) -> String {
    v.to_string()
}

fn obj(entries: Vec<(&str, JsonValue)>) -> JsonValue {
    JsonValue::Object(entries.into_iter().map(|(k, v)| (s(k), v)).collect())
}

fn num(n: &str) -> JsonValue {
    JsonValue::Number(s(n))
}

fn todo(title: &str) -> JsonValue {
    obj(vec![("id", num("1")), ("title", JsonValue::Str(s(title)))])
}

#[test]
fn status_text() {
    assert_eq!(get_status_text(&s("HTTP/1.1"), &s("200 OK")), s("HTTP/1.1 200 OK"));
}

#[test]
fn header_text_skips_named_headers() {
    let headers = vec![
        (s("content-type"), s("\"application/json\"")),
        (s("connection"), s("\"close\"")),
        (s("date"), s("\"today\"")),
    ];
    assert_eq!(
        get_header_text(&headers, &vec![s("connection"), s("date")]),
        s("content-type:\"application/json\"\n\n")
    );
    assert_eq!(get_header_text(&vec![], &vec![]), s("\n"));
}

#[test]
fn pretty_printing() {
    assert_eq!(todo("todo").to_pretty_text(), s("{\n  \"id\": 1,\n  \"title\": \"todo\"\n}"));
    let nested = obj(vec![("a", JsonValue::Array(vec![num("1"), obj(vec![])])), ("b", JsonValue::Array(vec![]))]);
    assert_eq!(nested.to_pretty_text(), s("{\n  \"a\": [\n    1,\n    {}\n  ],\n  \"b\": []\n}"));
}

#[test]
fn compact_printing_escapes_strings() {
    let v = obj(vec![("q\"k", JsonValue::Str(s("line\nnext"))), ("n", JsonValue::Null), ("f", JsonValue::Bool(false))]);
    assert_eq!(v.to_json_text(), s("{\"q\\\"k\":\"line\\nnext\",\"n\":null,\"f\":false}"));
}

#[test]
fn filter_removes_only_top_level_keys() {
    let v = obj(vec![
        ("id", num("1")),
        ("inner", obj(vec![("id", num("2")), ("x", num("3"))])),
        ("title", JsonValue::Str(s("t"))),
    ]);
    let out = filter_json(&v, &vec![s("id")]);
    assert_eq!(out, s("{\n  \"inner\": {\n    \"id\": 2,\n    \"x\": 3\n  },\n  \"title\": \"t\"\n}"));
}

#[test]
fn filter_leaves_non_objects() {
    let v = JsonValue::Array(vec![obj(vec![("id", num("1"))])]);
    assert_eq!(filter_json(&v, &vec![s("id")]), s("[\n  {\n    \"id\": 1\n  }\n]"));
}

#[test]
fn body_text_for_json_and_other_types() {
    let raw = s("{\"id\":1,\"title\":\"todo\"}");
    let parsed = Some(todo("todo"));
    let json = Some(s("application/json"));
    assert_eq!(
        get_body_text(&json, &raw, &parsed, &vec![]).unwrap(),
        s("{\n  \"id\": 1,\n  \"title\": \"todo\"\n}")
    );
    assert_eq!(get_body_text(&json, &raw, &None, &vec![]), Err(Error::MalformedBody));
    assert_eq!(get_body_text(&Some(s("text/plain")), &raw, &None, &vec![]).unwrap(), raw);
    assert_eq!(get_body_text(&None, &raw, &parsed, &vec![]).unwrap(), raw);
}

#[test]
fn response_text_layout() {
    let headers = vec![(s("content-type"), s("application/json")), (s("date"), s("today"))];
    let profile = ResponseProfile::new(vec![s("date")], vec![s("id")]);
    let text = get_text(&s("HTTP/1.1 200 OK"), &headers, &s("{}"), &Some(todo("todo")), &profile).unwrap();
    assert_eq!(
        text,
        s("HTTP/1.1 200 OK\ncontent-type:\"application/json\"\n\n{\n  \"title\": \"todo\"\n}\n")
    );
}

#[test]
fn header_values_are_shown_escaped() {
    let headers = vec![(s("x-q"), s("a\"b"))];
    let text = get_text(&s("S"), &headers, &s("raw"), &None, &ResponseProfile::default()).unwrap();
    assert_eq!(text, s("S\nx-q:\"a\\\"b\"\n\nraw\n"));
}

#[test]
fn diff_of_two_todo_responses() {
    let a = todo("todo").to_pretty_text();
    let b = todo("done").to_pretty_text();
    assert_eq!(
        diff_text(&a, &b),
        s("1   1    | {\n2   2    |   \"id\": 1,\n3        |-  \"title\": \"todo\"\n    3    |+  \"title\": \"done\"\n4   4    | }\n")
    );
}

#[test]
fn diff_of_equal_texts_is_empty() {
    assert_eq!(diff_text("a\nb\n", "a\nb\n"), s(""));
}

#[test]
fn diff_hunks_are_separated() {
    let a: String = (1..=20).map(|i| format!("{}\n", i)).collect();
    let b = a.replace("2\n", "x\n").replace("19\n", "y\n");
    let out = diff_text(&a, &b);
    assert!(out.contains(&"-".repeat(80)));
    assert!(out.starts_with("1   1    | 1\n2        |-2\n    2    |+x\n"));
}

#[test]
fn empty_json_value_cases() {
    assert!(empty_json_value(&None));
    assert!(empty_json_value(&Some(obj(vec![]))));
    assert!(empty_json_value(&Some(num("1"))));
    assert!(!empty_json_value(&Some(todo("t"))));
}

#[test]
fn is_default_cases() {
    assert!(is_default(&0u32));
    assert!(!is_default(&s("x")));
}

#[test]
fn diff_spans_show_the_diff_text() {
    let a = todo("todo").to_pretty_text();
    let b = todo("done").to_pretty_text();
    let spans = diff_spans(&a, &b);
    let joined: String = spans.iter().map(|sp| sp.text.as_str()).collect();
    assert_eq!(joined, diff_text(&a, &b));
    assert_eq!(spans[0].text, s("1   "));
    assert_eq!(spans[0].style, SpanStyle::LineNumber);
    assert_eq!(spans[2].text, s(" |"));
    assert_eq!(spans[3].style, SpanStyle::Sign(ChangeKind::Equal));
    assert!(spans.iter().any(|sp| sp.style == SpanStyle::Sign(ChangeKind::Delete) && sp.text == "-"));
    assert!(spans.iter().any(|sp| sp.style == SpanStyle::Emphasized(ChangeKind::Insert) && sp.text.contains("done")));
}

#[test]
fn diff_separator_span_between_hunks() {
    let a: String = (1..=20).map(|i| format!("{}\n", i)).collect();
    let b = a.replace("2\n", "x\n").replace("19\n", "y\n");
    let spans = diff_spans(&a, &b);
    let seps: Vec<_> = spans.iter().filter(|sp| sp.style == SpanStyle::Separator).collect();
    assert_eq!(seps.len(), 1);
    assert_eq!(seps[0].text, "-".repeat(80));
}

#[test]
fn missing_final_newline_is_supplied() {
    assert_eq!(diff_text("a", "b"), s("1        |-a\n    1    |+b\n"));
}

#[test]
fn highlighting_colours_each_line() {
    let out = xdiff::highlight_text("a: 1\nb: 2\n", "yaml", None).unwrap();
    assert!(out.contains("\x1b[38;2;"));
    assert_eq!(out.matches('\n').count(), 4);
    assert!(out.ends_with('\n'));
}

#[test]
fn highlighting_with_unknown_theme_fails() {
    assert_eq!(xdiff::highlight_text("x", "json", Some("no-such-theme")), Err(Error::Highlight));
}

#[test]
fn get_status_text_should_work() {
    assert_eq!(get_status_text(&s("HTTP/1.1"), &s("200 OK")), "HTTP/1.1 200 OK");
}

#[test]
fn get_header_text_should_work() {
    let received = vec![
        (s("content-type"), s("application/json")),
        (s("connection"), s("close")),
        (s("content-length"), s("24")),
        (s("date"), s("Mon, 01 Jan 2024 00:00:00 GMT")),
    ];
    let shown = show_headers(&received).unwrap();
    assert_eq!(
        get_header_text(&shown, &["connection".into(), "content-length".into(), "date".into()].to_vec()),
        "content-type:\"application/json\"\n\n"
    );
}

#[test]
fn get_body_text_should_work() {
    let raw = s("{\"id\":1,\"title\":\"todo\"}");
    assert_eq!(
        get_body_text(&Some(s("application/json")), &raw, &Some(todo("todo")), &vec![]).unwrap(),
        s("{\n  \"id\": 1,\n  \"title\": \"todo\"\n}")
    );
}
