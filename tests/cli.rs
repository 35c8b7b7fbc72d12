use xdiff::{parse_key_value, Error, ExtraArgs, KeyVal, KeyValType};

fn s(v: &str) -> String {
    v.to_string()
}

#[test]
fn from_vec_key_val_for_extra_args_should_work() {
    let args = vec![
        KeyVal {
            key_type: KeyValType::Header,
            key: "Content-Type".to_string(),
            value: "application/json".to_string(),
        },
        KeyVal {
            key_type: KeyValType::Query,
            key: "id".to_string(),
            value: "1".to_string(),
        },
        KeyVal {
            key_type: KeyValType::Body,
            key: "name".to_string(),
            value: "misky".to_string(),
        },
    ];

    let extra_args = ExtraArgs::from(args);

    assert_eq!(
        extra_args,
        ExtraArgs {
            headers: vec![("Content-Type".to_string(), "application/json".to_string())],
            query: vec![("id".to_string(), "1".to_string())],
            body: vec![("name".to_string(), "misky".to_string())],
        }
    )
}

#[test]
fn parse_key_val_should_work() {
    let args = vec!["%Content-Type=application/json", "id=1", "@name=misky"];

    let key_vals = args
        .into_iter()
        .map(|s| parse_key_value(s))
        .collect::<Result<Vec<_>, Error>>()
        .unwrap();

    assert_eq!(
        key_vals,
        vec![
            KeyVal {
                key_type: KeyValType::Header,
                key: "Content-Type".to_string(),
                value: "application/json".to_string(),
            },
            KeyVal {
                key_type: KeyValType::Query,
                key: "id".to_string(),
                value: "1".to_string(),
            },
            KeyVal {
                key_type: KeyValType::Body,
                key: "name".to_string(),
                value: "misky".to_string(),
            },
        ]
    )
}

#[test]
fn unknown_sigil_is_rejected() {
    for token in ["#id=1", "1id=2", "-x=y", "$k=v", " =v", "=v", "!a=b"] {
        assert_eq!(parse_key_value(token), Err(Error::InvalidOverride), "{}", token);
    }
}

#[test]
fn token_without_equals_is_rejected() {
    assert_eq!(parse_key_value("id"), Err(Error::InvalidOverride));
    assert_eq!(parse_key_value(""), Err(Error::InvalidOverride));
}

#[test]
fn key_and_value_are_trimmed() {
    let kv = parse_key_value("  id  =  1 ").unwrap();
    assert_eq!(kv.key_type, KeyValType::Query);
    assert_eq!(kv.key, s("id"));
    assert_eq!(kv.value, s("1"));
}

#[test]
fn split_is_on_first_equals() {
    let kv = parse_key_value("@q=a=b").unwrap();
    assert_eq!(kv.key_type, KeyValType::Body);
    assert_eq!(kv.key, s("q"));
    assert_eq!(kv.value, s("a=b"));
}

#[test]
fn non_ascii_letter_starts_a_query_key() {
    let kv = parse_key_value("é=1").unwrap();
    assert_eq!(kv.key_type, KeyValType::Query);
    assert_eq!(kv.key, s("é"));
}

#[test]
fn grouping_keeps_input_order() {
    let args = vec![
        KeyVal { key_type: KeyValType::Query, key: s("b"), value: s("2") },
        KeyVal { key_type: KeyValType::Header, key: s("X-A"), value: s("1") },
        KeyVal { key_type: KeyValType::Query, key: s("a"), value: s("1") },
    ];
    let extra = ExtraArgs::from(args);
    assert_eq!(extra.query, vec![(s("b"), s("2")), (s("a"), s("1"))]);
    assert_eq!(extra.headers, vec![(s("X-A"), s("1"))]);
    assert!(extra.body.is_empty());
}
