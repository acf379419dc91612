use profile_graph::json::{remove_nulls, strip_json, json_get, Json};
use profile_graph::parse::parse_json;
use profile_graph::ser::json_to_pretty_string;

fn obj(fields: Vec<(&str, Json)>) -> Json {
    Json::Obj(fields.into_iter().map(|(k, v)| (k.to_string(), v)).collect())
}

fn s(v: &str) -> Json {
    Json::Str(v.to_string())
}

fn render(v: &Json) -> String {
    json_to_pretty_string(v)
}

#[test]
fn strip_removes_null_members_and_elements() {
    let doc = obj(vec![
        ("a", Json::Null),
        ("b", Json::Arr(vec![Json::Null, s("x"), Json::Null])),
        ("c", obj(vec![("inner", Json::Null)])),
    ]);
    let stripped = strip_json(&doc);
    assert_eq!(render(&stripped), render(&obj(vec![
        ("b", Json::Arr(vec![s("x")])),
        ("c", obj(vec![])),
    ])));
}

#[test]
fn strip_twice_equals_strip_once() {
    let doc = obj(vec![
        ("a", Json::Null),
        ("b", Json::Arr(vec![Json::Null, obj(vec![("k", Json::Null)])])),
    ]);
    let once = strip_json(&doc);
    let twice = strip_json(&once);
    assert_eq!(render(&once), render(&twice));
}

#[test]
fn strip_leaves_null_free_document_unchanged() {
    let doc = obj(vec![
        ("a", s("x")),
        ("b", Json::Arr(vec![Json::Bool(true), Json::Num("1.5".to_string())])),
    ]);
    let stripped = strip_json(&doc);
    assert_eq!(render(&stripped), render(&doc));
}

#[test]
fn remove_nulls_strips_in_place() {
    let mut doc = obj(vec![("a", Json::Null), ("b", s("x"))]);
    remove_nulls(&mut doc);
    assert_eq!(render(&doc), render(&obj(vec![("b", s("x"))])));
}

#[test]
fn json_get_finds_top_level_keys_only() {
    let doc = obj(vec![("a", s("1")), ("b", obj(vec![("c", s("2"))]))]);
    assert!(json_get(&doc, "a").is_some());
    assert!(json_get(&doc, "c").is_none());
    assert!(json_get(&s("zzz"), "a").is_none());
}

#[test]
fn parse_simple_document() {
    let doc = parse_json("{\"name\": \"V\", \"n\": 3, \"ok\": true, \"x\": null}").unwrap();
    match json_get(&doc, "name") {
        Some(Json::Str(v)) => assert_eq!(v, "V"),
        other => panic!("{other:?}"),
    }
    match json_get(&doc, "n") {
        Some(Json::Num(v)) => assert_eq!(v, "3"),
        other => panic!("{other:?}"),
    }
    match json_get(&doc, "ok") {
        Some(Json::Bool(true)) => {}
        other => panic!("{other:?}"),
    }
    match json_get(&doc, "x") {
        Some(Json::Null) => {}
        other => panic!("{other:?}"),
    }
}

#[test]
fn parse_rejects_malformed_documents() {
    assert!(parse_json("").is_err());
    assert!(parse_json("{").is_err());
    assert!(parse_json("{\"a\": }").is_err());
    assert!(parse_json("[1, 2,,]").is_err());
    assert!(parse_json("nul").is_err());
    assert!(parse_json("{} trailing").is_err());
    assert!(parse_json("\"unterminated").is_err());
    assert!(parse_json("01").is_err());
}

#[test]
fn parse_number_grammar_edges() {
    for ok in ["0", "-0", "1e5", "-0.5", "12.25E+2", "9e-1"] {
        match parse_json(ok) {
            Ok(Json::Num(v)) => assert_eq!(v, ok),
            other => panic!("{ok}: {other:?}"),
        }
    }
    for bad in ["1.", "-", "1e", "+1", ".5", "1e+", "--1"] {
        assert!(parse_json(bad).is_err(), "{bad}");
    }
}

#[test]
fn parse_handles_escapes_and_nesting() {
    let doc = parse_json(
        "  [ {\"k\": \"a\\nb\\\"c\\u0041\"}, [\"\\uD83D\\uDE00\"], -1.5e3 ]  ",
    ).unwrap();
    match &doc {
        Json::Arr(items) => {
            assert_eq!(items.len(), 3);
            match &items[0] {
                Json::Obj(fields) => {
                    assert_eq!(fields[0].0, "k");
                    match &fields[0].1 {
                        Json::Str(v) => assert_eq!(v, "a\nb\"cA"),
                        other => panic!("{other:?}"),
                    }
                }
                other => panic!("{other:?}"),
            }
            match &items[1] {
                Json::Arr(inner) => match &inner[0] {
                    Json::Str(v) => assert_eq!(v, "\u{1F600}"),
                    other => panic!("{other:?}"),
                },
                other => panic!("{other:?}"),
            }
            match &items[2] {
                Json::Num(v) => assert_eq!(v, "-1.5e3"),
                other => panic!("{other:?}"),
            }
        }
        other => panic!("{other:?}"),
    }
}

#[test]
fn parse_rejects_lone_surrogate_escapes() {
    assert!(parse_json("\"\\uDC00\"").is_err());
    assert!(parse_json("\"\\uD800\"").is_err());
    assert!(parse_json("\"\\uD800\\u0041\"").is_err());
}

#[test]
fn parse_duplicate_keys_keep_last_value() {
    let doc = parse_json("{\"a\": 1, \"a\": 2}").unwrap();
    match json_get(&doc, "a") {
        Some(Json::Num(v)) => assert_eq!(v, "2"),
        other => panic!("{other:?}"),
    }
}

#[test]
fn pretty_output_matches_expected_layout() {
    let doc = obj(vec![
        ("name", s("V")),
        ("list", Json::Arr(vec![Json::Num("1".to_string()), Json::Bool(false)])),
        ("empty", Json::Arr(vec![])),
    ]);
    let expected = "{\n  \"name\": \"V\",\n  \"list\": [\n    1,\n    false\n  ],\n  \"empty\": []\n}";
    assert_eq!(render(&doc), expected);
}

#[test]
fn pretty_output_is_valid_json_for_an_outside_parser() {
    let text = "{\"a\": [1, {\"b\": \"x\\ty\"}], \"c\": \"q\\\"uote\", \"d\": 1.25e-3}";
    let doc = parse_json(text).unwrap();
    let rendered = render(&doc);
    let mine: serde_json::Value = serde_json::from_str(&rendered).unwrap();
    let reference: serde_json::Value = serde_json::from_str(text).unwrap();
    assert_eq!(mine, reference);
}

#[test]
fn control_characters_are_escaped_like_the_outside_writer() {
    let doc = s("a\u{1}b\u{8}c\u{1f}");
    let rendered = render(&doc);
    let mine: serde_json::Value = serde_json::from_str(&rendered).unwrap();
    assert_eq!(mine, serde_json::Value::String("a\u{1}b\u{8}c\u{1f}".to_string()));
}

#[test]
fn add_new_prop_overwrites_and_appends() {
    let doc = parse_json("{\"a\": 1, \"b\": 2}").unwrap();
    let doc = profile_graph::json::add_new_prop(doc, "a", s("new"));
    assert_eq!(render(&doc), render(&obj(vec![("b", Json::Num("2".to_string())), ("a", s("new"))])));
    let doc = profile_graph::json::add_new_prop(doc, "c", Json::Bool(true));
    match json_get(&doc, "c") {
        Some(Json::Bool(true)) => {}
        other => panic!("{other:?}"),
    }
    // a non-object document is left unchanged
    let not_obj = profile_graph::json::add_new_prop(s("x"), "a", Json::Null);
    assert_eq!(render(&not_obj), render(&s("x")));
}

#[test]
fn round_trip_through_parse_and_pretty_is_stable() {
    let text = "{\"n\": [true, null, \"s\"], \"m\": {}}";
    let doc = parse_json(text).unwrap();
    let rendered = render(&doc);
    let again = parse_json(&rendered).unwrap();
    assert_eq!(render(&again), rendered);
}
