use std::str::FromStr;

use xdiff::{
    get_content_type, DiffConfig, DiffProfile, Error, ExtraArgs, JsonValue, RequestConfig, RequestProfile,
    ResponseProfile, ValidateConfig,
};

fn s(v: &str) -> String {
    v.to_string()
}

fn obj(entries: Vec<(&str, JsonValue)>) -> JsonValue {
    JsonValue::Object(entries.into_iter().map(|(k, v)| (s(k), v)).collect())
}

fn num(n: &str) -> JsonValue {
    JsonValue::Number(s(n))
}

fn get_profile(url: &str, path_and_query: &str) -> RequestProfile {
    RequestProfile::from_str(&format!("{}{}", url, path_and_query)).unwrap()
}

#[test]
fn request_profile_get_url_should_work() {
    let profile = get_profile("http://localhost:8080", "/todo?c=3&d=4");

    assert_eq!(
        profile.get_url(&Default::default()).unwrap(),
        "http://localhost:8080/todo?c=3&d=4"
    );
}

#[test]
fn request_profile_get_url_with_args_should_work() {
    let profile = get_profile("http://localhost:8080", "/todo?a=1&b=2");

    let args = ExtraArgs::new_with_query(vec![("b".into(), "2".into()), ("a".into(), "1".into())]);

    assert_eq!(
        profile.get_url(&args).unwrap(),
        "http://localhost:8080/todo?a=1&b=2"
    );
}

#[test]
fn test_get_content_type() {
    let headers = vec![(s("content-type"), s("application/json; charset=utf-8"))];

    assert_eq!(get_content_type(&headers), Some("application/json".to_string()));
}

#[test]
fn content_type_absent() {
    let headers = vec![(s("accept"), s("*/*"))];
    assert_eq!(get_content_type(&headers), None);
}

#[test]
fn profile_from_url_lifts_query() {
    let p = RequestProfile::from_url("http://host/todo?a=1&b=2").unwrap();
    assert_eq!(p.method, s("GET"));
    assert_eq!(p.url, s("http://host/todo"));
    assert_eq!(p.params, Some(obj(vec![("a", num("1")), ("b", num("2"))])));
    assert!(p.headers.is_empty());
    assert_eq!(p.body, None);
}

#[test]
fn profile_from_url_keeps_text_values_as_strings() {
    let p = RequestProfile::from_url("http://host/x?name=misky&flag=true").unwrap();
    assert_eq!(
        p.params,
        Some(obj(vec![("name", JsonValue::Str(s("misky"))), ("flag", JsonValue::Bool(true))]))
    );
}

#[test]
fn profile_from_bad_url_fails() {
    assert_eq!(RequestProfile::from_url("not a url").unwrap_err(), Error::InvalidUrl);
}

#[test]
fn end_to_end_query_scenario() {
    let p = RequestProfile::from_url("http://host/todo?a=1&b=2").unwrap();
    let (_, query, _) = p.generate(&ExtraArgs::default()).unwrap();
    assert_eq!(query, obj(vec![("a", num("1")), ("b", num("2"))]));
    assert_eq!(query.to_json_text(), s("{\"a\":1,\"b\":2}"));
    assert_eq!(p.get_url(&ExtraArgs::default()).unwrap(), s("http://host/todo?a=1&b=2"));
}

#[test]
fn url_unchanged_without_params() {
    let p = RequestProfile::new(s("GET"), s("http://host/todo"), None, vec![], None);
    assert_eq!(p.get_url(&ExtraArgs::default()).unwrap(), s("http://host/todo"));
    let q = RequestProfile::from_url("http://host/todo").unwrap();
    assert_eq!(q.get_url(&ExtraArgs::default()).unwrap(), s("http://host/todo"));
}

#[test]
fn integer_query_override_is_a_number() {
    let p = RequestProfile::new(s("GET"), s("http://host/todo"), None, vec![], None);
    let args = ExtraArgs::new_with_query(vec![(s("id"), s("1"))]);
    let (_, query, _) = p.generate(&args).unwrap();
    assert_eq!(query, obj(vec![("id", num("1"))]));
    assert_eq!(p.get_url(&args).unwrap(), s("http://host/todo?id=1"));
}

#[test]
fn scalar_overrides_are_decoded() {
    let p = RequestProfile::new(s("GET"), s("http://host/"), None, vec![], None);
    let args = ExtraArgs::new_with_query(vec![
        (s("n"), s("null")),
        (s("t"), s("true")),
        (s("f"), s("-2.5")),
        (s("w"), s("word")),
        (s("z"), s("007")),
    ]);
    let (_, query, _) = p.generate(&args).unwrap();
    assert_eq!(
        query,
        obj(vec![
            ("n", JsonValue::Null),
            ("t", JsonValue::Bool(true)),
            ("f", num("-2.5")),
            ("w", JsonValue::Str(s("word"))),
            ("z", JsonValue::Str(s("007"))),
        ])
    );
}

#[test]
fn empty_overrides_keep_profile_content() {
    let params = obj(vec![("page", num("2")), ("tag", JsonValue::Str(s("x")))]);
    let body = obj(vec![("name", JsonValue::Str(s("misky"))), ("list", JsonValue::Array(vec![num("1"), num("2")]))]);
    let p = RequestProfile::new(
        s("POST"),
        s("http://host/todo"),
        Some(obj(vec![("page", num("2")), ("tag", JsonValue::Str(s("x")))])),
        vec![],
        Some(obj(vec![("name", JsonValue::Str(s("misky"))), ("list", JsonValue::Array(vec![num("1"), num("2")]))])),
    );
    let (headers, query, text) = p.generate(&ExtraArgs::default()).unwrap();
    assert_eq!(query, params);
    assert_eq!(text, body.to_json_text());
    assert_eq!(text, s("{\"name\":\"misky\",\"list\":[1,2]}"));
    assert_eq!(headers, vec![(s("content-type"), s("application/json"))]);
}

#[test]
fn header_override_wins_over_default_content_type() {
    let p = RequestProfile::new(
        s("POST"),
        s("http://host/todo"),
        None,
        vec![],
        Some(obj(vec![("name", JsonValue::Str(s("misky")))])),
    );
    let args = ExtraArgs {
        headers: vec![(s("Content-Type"), s("application/x-www-form-urlencoded"))],
        query: vec![],
        body: vec![(s("age"), s("3"))],
    };
    let (headers, _, text) = p.generate(&args).unwrap();
    assert_eq!(headers, vec![(s("content-type"), s("application/x-www-form-urlencoded"))]);
    assert_eq!(text, s("name=misky&age=3"));
}

#[test]
fn multipart_media_type_is_form_encoded() {
    let p = RequestProfile::new(
        s("POST"),
        s("http://host/"),
        None,
        vec![(s("content-type"), s("multipart/form-data; boundary=x"))],
        Some(obj(vec![("a b", JsonValue::Str(s("c&d")))])),
    );
    let (_, _, text) = p.generate(&ExtraArgs::default()).unwrap();
    assert_eq!(text, s("a+b=c%26d"));
}

#[test]
fn unsupported_content_type_fails() {
    let p = RequestProfile::new(s("GET"), s("http://host/"), None, vec![(s("content-type"), s("text/plain"))], None);
    assert_eq!(p.generate(&ExtraArgs::default()).unwrap_err(), Error::UnsupportedContentType);
}

#[test]
fn nested_body_is_not_form_encodable() {
    let p = RequestProfile::new(
        s("POST"),
        s("http://host/"),
        None,
        vec![(s("content-type"), s("application/x-www-form-urlencoded"))],
        Some(obj(vec![("a", obj(vec![("b", num("1"))]))])),
    );
    assert_eq!(p.generate(&ExtraArgs::default()).unwrap_err(), Error::UnencodableBody);
}

#[test]
fn invalid_header_override_fails() {
    let p = RequestProfile::new(s("GET"), s("http://host/"), None, vec![], None);
    let bad_name = ExtraArgs { headers: vec![(s("bad name"), s("v"))], query: vec![], body: vec![] };
    assert_eq!(p.generate(&bad_name).unwrap_err(), Error::InvalidHeader);
    let bad_value = ExtraArgs { headers: vec![(s("x-a"), s("line\nbreak"))], query: vec![], body: vec![] };
    assert_eq!(p.generate(&bad_value).unwrap_err(), Error::InvalidHeader);
}

#[test]
fn header_override_replaces_in_place_and_lowercases() {
    let p = RequestProfile::new(
        s("GET"),
        s("http://host/"),
        None,
        vec![(s("x-a"), s("1")), (s("content-type"), s("application/json"))],
        None,
    );
    let args = ExtraArgs { headers: vec![(s("X-A"), s("2")), (s("X-New"), s("3"))], query: vec![], body: vec![] };
    let (headers, _, _) = p.generate(&args).unwrap();
    assert_eq!(
        headers,
        vec![(s("x-a"), s("2")), (s("content-type"), s("application/json")), (s("x-new"), s("3"))]
    );
}

#[test]
fn validation_rejects_non_object_params_and_body() {
    let p = RequestProfile::new(s("GET"), s("http://host/"), Some(JsonValue::Array(vec![])), vec![], None);
    assert_eq!(p.validate(), Err(Error::ParamsNotObject));
    assert_eq!(p.generate(&ExtraArgs::default()).unwrap_err(), Error::ParamsNotObject);
    let q = RequestProfile::new(s("GET"), s("http://host/"), None, vec![], Some(num("1")));
    assert_eq!(q.validate(), Err(Error::BodyNotObject));
    let r = RequestProfile::new(s("GET"), s("http://host/"), Some(obj(vec![])), vec![], None);
    assert_eq!(r.validate(), Ok(()));
}

#[test]
fn query_overrides_update_in_place() {
    let p = RequestProfile::from_url("http://host/todo?a=1&b=2").unwrap();
    let args = ExtraArgs::new_with_query(vec![(s("a"), s("5")), (s("c"), s("x y"))]);
    let (_, query, _) = p.generate(&args).unwrap();
    assert_eq!(query, obj(vec![("a", num("5")), ("b", num("2")), ("c", JsonValue::Str(s("x y")))]));
    assert_eq!(p.get_url(&args).unwrap(), s("http://host/todo?a=5&b=2&c=x+y"));
}

#[test]
fn last_override_of_a_key_wins() {
    let p = RequestProfile::new(s("GET"), s("http://host/"), None, vec![], None);
    let args = ExtraArgs::new_with_query(vec![(s("k"), s("1")), (s("k"), s("2"))]);
    let (_, query, _) = p.generate(&args).unwrap();
    assert_eq!(query, obj(vec![("k", num("2"))]));
}

#[test]
fn configs_look_up_and_validate_profiles() {
    let good = RequestProfile::new(s("GET"), s("http://host/a"), None, vec![], None);
    let bad = RequestProfile::new(s("GET"), s("http://host/b"), Some(num("1")), vec![], None);
    let config = RequestConfig::new(vec![(s("a"), good)]);
    assert_eq!(config.get_profile("a").unwrap().url, s("http://host/a"));
    assert!(config.get_profile("b").is_none());
    assert_eq!(ValidateConfig::validate(&config), Ok(()));
    let config = RequestConfig::new(vec![(s("b"), bad)]);
    assert_eq!(ValidateConfig::validate(&config), Err(Error::ParamsNotObject));
    let pair = DiffProfile::new(
        RequestProfile::new(s("GET"), s("http://host/1"), None, vec![], None),
        RequestProfile::new(s("GET"), s("http://host/2"), None, vec![], Some(JsonValue::Null)),
        ResponseProfile::default(),
    );
    let diff = DiffConfig::new(vec![(s("d"), pair)]);
    assert!(diff.get_profile("d").is_some());
    assert_eq!(ValidateConfig::validate(&diff), Err(Error::BodyNotObject));
}
